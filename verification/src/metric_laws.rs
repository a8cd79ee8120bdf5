//! What the metric counts mean, stated over all inputs: the precision points of ranked
//! relevance verdicts, the n-gram counts of BLEU, the padded Hamming distance, entity recall and
//! positional tool-call matching.
use vstd::prelude::*;

use crate::agentic::positional_matches;
use crate::dataset::ToolCall;
use crate::overlap::{mismatches, padded_hamming};
use crate::overlap::{clipped_overlap, lemma_clipped_overlap_bounded, lemma_clipped_overlap_symmetric};
use crate::rag::{byte_len, entity_hits, meaningful, meaningful_from, normalized, precision_points, stopword, token_of_any};
use crate::text::words;
use crate::traditional::{bleu_orders, token_ngrams};

verus! {

/// The number of `true` verdicts in `s`.
pub open spec fn true_count(s: Seq<bool>) -> nat {
    s.filter(|b: bool| b).len()
}

proof fn lemma_true_count_push(s: Seq<bool>, b: bool)
    ensures
        true_count(s.push(b)) == true_count(s) + if b { 1nat } else { 0nat },
{
    reveal(Seq::filter);
    assert(s.push(b).drop_last() =~= s);
}

/// Context precision's points: there is one point per relevant context, in rank order. The
/// point of the `m`-th relevant context (from 0) is `(m + 1, k)`, where `k` is that context's
/// 1-based rank in the whole list: the context at rank `k` is relevant, and `m + 1` of the first
/// `k` contexts are relevant, so the point's precision@k is (relevant among the first k) / k.
pub proof fn law_precision_points_rank_relevant(relevance: Seq<bool>)
    ensures
        precision_points(relevance).len() == true_count(relevance),
        forall|m: int| 0 <= m < precision_points(relevance).len() ==> {
            let p = #[trigger] precision_points(relevance)[m];
            &&& 1 <= p.1 <= relevance.len()
            &&& relevance[p.1 - 1]
            &&& p.0 == m + 1
            &&& p.0 == true_count(relevance.take(p.1 as int))
        },
    decreases relevance.len(),
{
    if relevance.len() == 0 {
        reveal(Seq::filter);
    } else {
        let rest = relevance.drop_last();
        let x = relevance.last();
        law_precision_points_rank_relevant(rest);
        assert(relevance =~= rest.push(x));
        lemma_true_count_push(rest, x);
        let pr = precision_points(rest);
        let p = precision_points(relevance);
        assert forall|m: int| 0 <= m < p.len() implies {
            let q = #[trigger] p[m];
            &&& 1 <= q.1 <= relevance.len()
            &&& relevance[q.1 - 1]
            &&& q.0 == m + 1
            &&& q.0 == true_count(relevance.take(q.1 as int))
        } by {
            if m < pr.len() {
                let q = pr[m];
                assert(p[m] == q);
                assert(relevance.take(q.1 as int) =~= rest.take(q.1 as int));
                assert(relevance[q.1 - 1] == rest[q.1 - 1]);
            } else {
                assert(x);
                assert(relevance.take(relevance.len() as int) =~= relevance);
            }
        }
    }
}

/// Each precision point's rank is at least its count of relevant contexts so far, and equal to
/// it only when every context up to that rank is relevant.
pub proof fn law_precision_rank_at_least_seen(relevance: Seq<bool>, m: int)
    requires
        0 <= m < precision_points(relevance).len(),
    ensures
        precision_points(relevance)[m].0 <= precision_points(relevance)[m].1,
        precision_points(relevance)[m].0 == precision_points(relevance)[m].1
            <==> forall|j: int| 0 <= j < precision_points(relevance)[m].1 ==> relevance[j],
{
    law_precision_points_rank_relevant(relevance);
    let p = precision_points(relevance)[m];
    let t = relevance.take(p.1 as int);
    lemma_true_count_bounds(t);
    assert((forall|j: int| 0 <= j < t.len() ==> t[j]) <==> (forall|j: int| 0 <= j < p.1 ==> relevance[j])) by {
        if forall|j: int| 0 <= j < t.len() ==> t[j] {
            assert forall|j: int| 0 <= j < p.1 implies relevance[j] by {
                assert(t[j] == relevance[j]);
            }
        }
        if forall|j: int| 0 <= j < p.1 ==> relevance[j] {
            assert forall|j: int| 0 <= j < t.len() implies t[j] by {
                assert(t[j] == relevance[j]);
            }
        }
    }
}

/// At most as many `true` verdicts as verdicts, and as many only when all are `true`.
proof fn lemma_true_count_bounds(s: Seq<bool>)
    ensures
        true_count(s) <= s.len(),
        true_count(s) == s.len() <==> forall|j: int| 0 <= j < s.len() ==> s[j],
    decreases s.len(),
{
    if s.len() == 0 {
        reveal(Seq::filter);
    } else {
        let rest = s.drop_last();
        lemma_true_count_bounds(rest);
        assert(s =~= rest.push(s.last()));
        lemma_true_count_push(rest, s.last());
        if forall|j: int| 0 <= j < s.len() ==> s[j] {
            assert forall|j: int| 0 <= j < rest.len() implies rest[j] by {
                assert(s[j] == rest[j]);
            }
        }
        if true_count(s) == s.len() {
            assert forall|j: int| 0 <= j < s.len() implies s[j] by {
                if j < rest.len() {
                    assert(s[j] == rest[j]);
                }
            }
        }
    }
}

proof fn lemma_mismatches_zero(a: Seq<char>, b: Seq<char>, n: int)
    requires
        0 <= n <= a.len(),
        n <= b.len(),
    ensures
        mismatches(a, b, n) <= n,
        mismatches(a, b, n) == 0 <==> forall|i: int| 0 <= i < n ==> a[i] == b[i],
    decreases n,
{
    if n > 0 {
        lemma_mismatches_zero(a, b, n - 1);
    }
}

/// The padded Hamming distance is at least the difference of the two lengths, at most the longer
/// length, the same both ways round, and zero exactly for equal texts.
pub proof fn law_padded_hamming(a: Seq<char>, b: Seq<char>)
    ensures
        a.len() - b.len() <= padded_hamming(a, b),
        b.len() - a.len() <= padded_hamming(a, b),
        padded_hamming(a, b) <= if a.len() >= b.len() { a.len() } else { b.len() },
        padded_hamming(a, b) == padded_hamming(b, a),
        padded_hamming(a, b) == 0 <==> a == b,
{
    let shared = if a.len() <= b.len() { a.len() } else { b.len() };
    lemma_mismatches_zero(a, b, shared as int);
    lemma_mismatches_symmetric(a, b, shared as int);
    if padded_hamming(a, b) == 0 {
        assert(a.len() == b.len());
        assert(a =~= b);
    }
}

proof fn lemma_mismatches_symmetric(a: Seq<char>, b: Seq<char>, n: int)
    ensures
        mismatches(a, b, n) == mismatches(b, a, n),
    decreases n,
{
    if n > 0 {
        lemma_mismatches_symmetric(a, b, n - 1);
    }
}

/// Positional tool-call matching compares the whole call: where every position holds calls
/// with different arguments, or every position holds calls with different names, nothing
/// matches; where every position holds calls with the same name and arguments, every position
/// matches; and never more positions match than are compared.
pub proof fn law_positional_matches_need_name_and_arguments(reference: Seq<ToolCall>, actual: Seq<ToolCall>, n: nat)
    requires
        n <= reference.len(),
        n <= actual.len(),
    ensures
        positional_matches(reference, actual, n) <= n,
        (forall|i: int| 0 <= i < n ==> (#[trigger] reference[i])@.arguments != actual[i]@.arguments)
            ==> positional_matches(reference, actual, n) == 0,
        (forall|i: int| 0 <= i < n ==> (#[trigger] reference[i])@.name != actual[i]@.name)
            ==> positional_matches(reference, actual, n) == 0,
        (forall|i: int| 0 <= i < n ==> (#[trigger] reference[i])@.name == actual[i]@.name
            && reference[i]@.arguments == actual[i]@.arguments) ==> positional_matches(reference, actual, n) == n,
    decreases n,
{
    if n > 0 {
        law_positional_matches_need_name_and_arguments(reference, actual, (n - 1) as nat);
        let k = n - 1;
        assert(reference[k as int] == reference[k as int]);
    }
}

/// The number of n-grams of a sequence of `len` tokens.
pub open spec fn ngram_count(len: nat, n: nat) -> nat {
    if n >= 1 && len >= n { (len - n + 1) as nat } else { 0 }
}

/// BLEU's per-order counts: entry `k` is for order `k + 1`; its candidate count is the number
/// of (k+1)-grams of the candidate tokens and its reference count the number of (k+1)-grams of
/// the reference tokens (for unigrams, the token counts), so the reference count depends on the
/// reference alone; the clipped overlap is at most either count.
pub proof fn law_bleu_order_sizes(c: Seq<Seq<char>>, r: Seq<Seq<char>>, max_n: nat)
    ensures
        bleu_orders(c, r, max_n).len() == max_n,
        forall|k: int| 0 <= k < max_n ==> {
            let o = #[trigger] bleu_orders(c, r, max_n)[k];
            &&& o.1 == ngram_count(c.len(), (k + 1) as nat)
            &&& o.2 == ngram_count(r.len(), (k + 1) as nat)
            &&& o.0 <= o.1
            &&& o.0 <= o.2
        },
    decreases max_n,
{
    if max_n > 0 {
        law_bleu_order_sizes(c, r, (max_n - 1) as nat);
        let cg = token_ngrams(c, max_n);
        let rg = token_ngrams(r, max_n);
        lemma_clipped_overlap_bounded(cg, rg);
        lemma_clipped_overlap_symmetric(cg, rg);
        lemma_clipped_overlap_bounded(rg, cg);
        let prev = bleu_orders(c, r, (max_n - 1) as nat);
        let all = bleu_orders(c, r, max_n);
        assert forall|k: int| 0 <= k < max_n implies {
            let o = #[trigger] all[k];
            &&& o.1 == ngram_count(c.len(), (k + 1) as nat)
            &&& o.2 == ngram_count(r.len(), (k + 1) as nat)
            &&& o.0 <= o.1
            &&& o.0 <= o.2
        } by {
            if k < max_n - 1 {
                assert(all[k] == prev[k]);
            }
        }
    }
}

/// A word of a text whose normal form is long enough and not a stopword is among the text's
/// meaningful tokens, in that normal form.
proof fn lemma_word_meaningful(ws: Seq<Seq<char>>, w: Seq<char>)
    requires
        ws.contains(w),
        byte_len(normalized(w)) > 1,
        !stopword(normalized(w)),
    ensures
        meaningful_from(ws).contains(normalized(w)),
    decreases ws.len(),
{
    let rest = ws.drop_last();
    let m = meaningful_from(ws);
    if ws.last() == w {
        assert(m == meaningful_from(rest).push(normalized(w)));
        assert(m[m.len() - 1] == normalized(w));
    } else {
        let i = choose|i: int| 0 <= i < ws.len() && ws[i] == w;
        assert(i < ws.len() - 1);
        assert(rest[i] == w);
        lemma_word_meaningful(rest, w);
        let mr = meaningful_from(rest);
        let j = choose|j: int| 0 <= j < mr.len() && mr[j] == normalized(w);
        if byte_len(normalized(ws.last())) > 1 && !stopword(normalized(ws.last())) {
            assert(m == mr.push(normalized(ws.last())));
            assert(m[j] == normalized(w));
        } else {
            assert(m == mr);
        }
    }
}

/// Entity recall matches entities by their normal form: an entity whose own text occurs as a
/// word of one of the contexts (and whose normal form is a meaningful token) is always recalled,
/// so when every entity of the reference occurs in the contexts all of them are recalled; and
/// never more entities are recalled than there are.
pub proof fn law_entities_present_are_recalled(es: Seq<Seq<char>>, texts: Seq<Seq<char>>)
    ensures
        entity_hits(es, texts) <= es.len(),
        (forall|k: int| 0 <= k < es.len() ==> {
            &&& byte_len(normalized(#[trigger] es[k])) > 1
            &&& !stopword(normalized(es[k]))
            &&& exists|i: int| 0 <= i < texts.len() && #[trigger] words(texts[i]).contains(es[k])
        }) ==> entity_hits(es, texts) == es.len(),
    decreases es.len(),
{
    if es.len() > 0 {
        let rest = es.drop_last();
        law_entities_present_are_recalled(rest, texts);
        if forall|k: int| 0 <= k < es.len() ==> {
            &&& byte_len(normalized(#[trigger] es[k])) > 1
            &&& !stopword(normalized(es[k]))
            &&& exists|i: int| 0 <= i < texts.len() && #[trigger] words(texts[i]).contains(es[k])
        } {
            assert forall|k: int| 0 <= k < rest.len() implies {
                &&& byte_len(normalized(#[trigger] rest[k])) > 1
                &&& !stopword(normalized(rest[k]))
                &&& exists|i: int| 0 <= i < texts.len() && #[trigger] words(texts[i]).contains(rest[k])
            } by {
                assert(rest[k] == es[k]);
            }
            let e = es[es.len() - 1];
            assert(e == es.last());
            let i = choose|i: int| 0 <= i < texts.len() && #[trigger] words(texts[i]).contains(e);
            lemma_word_meaningful(words(texts[i]), e);
            assert(meaningful(texts[i]).contains(normalized(e)));
            assert(token_of_any(normalized(e), texts));
        }
    }
}

} // verus!
