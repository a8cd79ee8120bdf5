//! Provider benchmarks: the fixed prompts, one measurement per (provider, prompt), and the
//! token totals that the cost summary is built on.
use vstd::prelude::*;

use crate::llm::TokenUsage;
use crate::text::to_owned_string;

verus! {

/// A fixed benchmark prompt.
#[derive(Debug, Clone, PartialEq, Eq)]
pub struct BenchmarkPrompt {
    pub id: String,
    pub text: String,
}

impl BenchmarkPrompt {
    pub fn new(id: &str, text: &str) -> (p: Self)
        ensures
            p.id@ == id@,
            p.text@ == text@,
    {
        BenchmarkPrompt { id: to_owned_string(id), text: to_owned_string(text) }
    }
}

/// What one provider produced for one prompt, with the token usage it reported.
#[derive(Debug, Clone, PartialEq, Eq)]
pub struct BenchmarkMeasurement {
    pub provider_name: String,
    pub provider_kind: String,
    pub prompt_id: String,
    pub output_units: usize,
    pub usage: Option<TokenUsage>,
}

/// Token totals over a benchmark run.
#[derive(Debug, Clone, Copy, PartialEq, Eq, Default)]
pub struct UsageTotals {
    pub prompt_tokens: u64,
    pub completion_tokens: u64,
    pub total_tokens: u64,
}

/// A reported count, zero when not reported.
pub open spec fn count_of(c: Option<u32>) -> nat {
    match c {
        Some(n) => n as nat,
        None => 0,
    }
}

/// The sum over `ms` of the counts that `field` picks from each measurement's usage (a
/// measurement without usage counts zero).
pub open spec fn usage_sum(ms: Seq<BenchmarkMeasurement>, field: spec_fn(TokenUsage) -> Option<u32>) -> nat
    decreases ms.len(),
{
    if ms.len() == 0 {
        0
    } else {
        usage_sum(ms.drop_last(), field) + match ms.last().usage {
            Some(u) => count_of(field(u)),
            None => 0,
        }
    }
}

/// The prompt-token count of a usage report.
pub open spec fn prompt_field() -> spec_fn(TokenUsage) -> Option<u32> {
    |u: TokenUsage| u.prompt_tokens
}

/// The completion-token count of a usage report.
pub open spec fn completion_field() -> spec_fn(TokenUsage) -> Option<u32> {
    |u: TokenUsage| u.completion_tokens
}

/// The total-token count of a usage report.
pub open spec fn total_field() -> spec_fn(TokenUsage) -> Option<u32> {
    |u: TokenUsage| u.total_tokens
}

/// `n`, or `u64::MAX` when `n` does not fit.
pub open spec fn saturated(n: nat) -> u64 {
    if n <= u64::MAX { n as u64 } else { u64::MAX }
}

fn add_count(acc: u64, c: Option<u32>) -> (r: u64)
    ensures
        r == saturated(acc as nat + count_of(c)),
{
    match c {
        Some(n) => acc.saturating_add(n as u64),
        None => acc,
    }
}

/// The prompt, completion and total tokens over all measurements (unreported counts are
/// zero; a total that does not fit in `u64` stays at `u64::MAX`).
pub fn usage_totals(ms: &Vec<BenchmarkMeasurement>) -> (t: UsageTotals)
    ensures
        t.prompt_tokens == saturated(usage_sum(ms@, prompt_field())),
        t.completion_tokens == saturated(usage_sum(ms@, completion_field())),
        t.total_tokens == saturated(usage_sum(ms@, total_field())),
{
    let mut t = UsageTotals { prompt_tokens: 0, completion_tokens: 0, total_tokens: 0 };
    let mut i: usize = 0;
    while i < ms.len()
        invariant
            i <= ms@.len(),
            t.prompt_tokens == saturated(usage_sum(ms@.take(i as int), prompt_field())),
            t.completion_tokens == saturated(usage_sum(ms@.take(i as int), completion_field())),
            t.total_tokens == saturated(usage_sum(ms@.take(i as int), total_field())),
        decreases ms@.len() - i,
    {
        assert(ms@.take(i + 1).drop_last() =~= ms@.take(i as int));
        assert(ms@.take(i + 1).last() == ms@[i as int]);
        match &ms[i].usage {
            Some(u) => {
                t.prompt_tokens = add_count(t.prompt_tokens, u.prompt_tokens);
                t.completion_tokens = add_count(t.completion_tokens, u.completion_tokens);
                t.total_tokens = add_count(t.total_tokens, u.total_tokens);
            },
            None => {},
        }
        i = i + 1;
    }
    assert(ms@.take(ms@.len() as int) =~= ms@);
    t
}

} // verus!
