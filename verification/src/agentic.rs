//! Multi-turn agentic metrics: the tool calls a conversation made, the transcript an LLM judge
//! reads, and the configuration of the tool-call and topic-adherence metrics.
use vstd::prelude::*;

use crate::dataset::{Message, MessageRole, MultiTurnSample, ToolCall, ToolCallView};
use crate::overlap::{clipped_overlap, multiset_overlap, views};
use crate::text::{chars_of, decimal, push_decimal, push_str, str_equal};

verus! {

/// Whether tool calls must come in the reference order.
#[derive(Debug, Clone, Copy, PartialEq, Eq, Structural)]
pub enum ToolCallOrderPolicy {
    Strict,
    Flexible,
}

/// Position-wise comparison of the conversation's tool calls with the reference tool calls.
#[derive(Debug, Clone, Copy)]
pub struct ToolCallAccuracyMetric {
    pub order_policy: ToolCallOrderPolicy,
}

impl ToolCallAccuracyMetric {
    pub fn new() -> (m: Self)
        ensures
            m.order_policy == ToolCallOrderPolicy::Strict,
    {
        ToolCallAccuracyMetric { order_policy: ToolCallOrderPolicy::Strict }
    }

    pub fn with_order_policy(self, order_policy: ToolCallOrderPolicy) -> (m: Self)
        ensures
            m.order_policy == order_policy,
    {
        ToolCallAccuracyMetric { order_policy }
    }
}

impl Default for ToolCallAccuracyMetric {
    fn default() -> (m: Self)
        ensures
            m.order_policy == ToolCallOrderPolicy::Strict,
    {
        Self::new()
    }
}

/// Order-independent comparison of the conversation's tool calls with the reference.
#[derive(Debug, Clone, Copy, Default)]
pub struct ToolCallF1Metric;

impl ToolCallF1Metric {
    pub fn new() -> (m: Self) {
        ToolCallF1Metric
    }
}

/// The key under which tool calls are compared: the name, prefixed by its length so that name
/// and arguments cannot run together, then the arguments.
pub open spec fn call_key(c: ToolCallView) -> Seq<char> {
    decimal(c.name.len()) + ":"@ + c.name + c.arguments
}

/// The keys of a list of tool calls.
pub open spec fn call_keys(cs: Seq<ToolCall>) -> Seq<Seq<char>> {
    cs.map_values(|c: ToolCall| call_key(c@))
}

fn call_key_chars(c: &ToolCall) -> (out: Vec<char>)
    ensures
        out@ == call_key(c@),
{
    let mut s = String::new();
    push_decimal(&mut s, c.name.unicode_len());
    push_str(&mut s, ":");
    push_str(&mut s, c.name.as_str());
    push_str(&mut s, c.arguments.as_str());
    chars_of(s.as_str())
}

fn call_key_list(cs: &Vec<ToolCall>) -> (out: Vec<Vec<char>>)
    ensures
        views(out@) == call_keys(cs@),
{
    let mut out: Vec<Vec<char>> = Vec::new();
    let mut i: usize = 0;
    while i < cs.len()
        invariant
            i <= cs@.len(),
            views(out@) == call_keys(cs@).take(i as int),
        decreases cs@.len() - i,
    {
        let k = call_key_chars(&cs[i]);
        let ghost before = views(out@);
        out.push(k);
        assert(views(out@) =~= before.push(call_key(cs@[i as int]@)));
        assert(call_keys(cs@).take(i + 1) =~= call_keys(cs@).take(i as int).push(call_key(cs@[i as int]@)));
        i = i + 1;
    }
    assert(call_keys(cs@).take(cs@.len() as int) =~= call_keys(cs@));
    out
}

/// How many of the reference tool calls the conversation made, in any order: the clipped overlap
/// of the two lists of calls, compared by name and arguments.
pub fn tool_call_overlap(reference: &Vec<ToolCall>, actual: &Vec<ToolCall>) -> (r: usize)
    ensures
        r == clipped_overlap(call_keys(reference@), call_keys(actual@)),
{
    let rk = call_key_list(reference);
    let ak = call_key_list(actual);
    multiset_overlap(&rk, &ak)
}

/// Whether two tool calls have the same name and arguments.
pub open spec fn same_call(a: ToolCallView, b: ToolCallView) -> bool {
    a.name == b.name && a.arguments == b.arguments
}

/// How many of the first `n` positions hold the same call in both lists.
pub open spec fn positional_matches(reference: Seq<ToolCall>, actual: Seq<ToolCall>, n: nat) -> nat
    decreases n,
{
    if n == 0 {
        0
    } else {
        positional_matches(reference, actual, (n - 1) as nat) + if same_call(
            reference[n - 1]@,
            actual[n - 1]@,
        ) {
            1nat
        } else {
            0nat
        }
    }
}

/// How many positions (as far as the shorter list goes) hold the same tool call, by name and
/// arguments, in the reference and in the conversation.
pub fn tool_call_positional_matches(reference: &Vec<ToolCall>, actual: &Vec<ToolCall>) -> (r: usize)
    ensures
        r == positional_matches(
            reference@,
            actual@,
            if reference@.len() <= actual@.len() {
                reference@.len()
            } else {
                actual@.len()
            },
        ),
        r <= reference@.len(),
{
    let n: usize = if reference.len() <= actual.len() {
        reference.len()
    } else {
        actual.len()
    };
    let mut r: usize = 0;
    let mut i: usize = 0;
    while i < n
        invariant
            i <= n,
            n <= reference@.len(),
            n <= actual@.len(),
            r <= i,
            r == positional_matches(reference@, actual@, i as nat),
        decreases n - i,
    {
        if str_equal(reference[i].name.as_str(), actual[i].name.as_str()) && str_equal(
            reference[i].arguments.as_str(),
            actual[i].arguments.as_str(),
        ) {
            r = r + 1;
        }
        i = i + 1;
    }
    r
}

/// Which component topic adherence reports.
#[derive(Debug, Clone, Copy, PartialEq, Eq, Structural)]
pub enum TopicAdherenceMode {
    Precision,
    Recall,
    F1,
}

impl Default for TopicAdherenceMode {
    fn default() -> (m: Self)
        ensures
            m == TopicAdherenceMode::F1,
    {
        TopicAdherenceMode::F1
    }
}

/// The tool calls of the assistant messages, in order.
pub open spec fn issued_calls(ms: Seq<Message>) -> Seq<ToolCallView>
    decreases ms.len(),
{
    if ms.len() == 0 {
        Seq::empty()
    } else {
        let rest = issued_calls(ms.drop_last());
        if ms.last().role == MessageRole::Assistant {
            rest + ms.last().tool_calls@.map_values(|c: ToolCall| c@)
        } else {
            rest
        }
    }
}

/// The tool calls the conversation actually issued: those of its assistant messages, in order.
pub fn extract_tool_calls(sample: &MultiTurnSample) -> (out: Vec<ToolCall>)
    ensures
        out@.map_values(|c: ToolCall| c@) == issued_calls(sample.messages@),
{
    let ms = &sample.messages;
    let mut out: Vec<ToolCall> = Vec::new();
    let mut i: usize = 0;
    while i < ms.len()
        invariant
            i <= ms@.len(),
            out@.map_values(|c: ToolCall| c@) == issued_calls(ms@.take(i as int)),
        decreases ms@.len() - i,
    {
        assert(ms@.take(i + 1).drop_last() =~= ms@.take(i as int));
        assert(ms@.take(i + 1).last() == ms@[i as int]);
        let m = &ms[i];
        if m.role == MessageRole::Assistant {
            let ghost start = out@.map_values(|c: ToolCall| c@);
            let mut j: usize = 0;
            while j < m.tool_calls.len()
                invariant
                    j <= m.tool_calls@.len(),
                    out@.map_values(|c: ToolCall| c@) == start + m.tool_calls@.take(j as int).map_values(|c: ToolCall| c@),
                decreases m.tool_calls@.len() - j,
            {
                let ghost before = out@.map_values(|c: ToolCall| c@);
                let c = m.tool_calls[j].clone();
                out.push(c);
                assert(out@.map_values(|c: ToolCall| c@) =~= before.push(c@));
                assert(m.tool_calls@.take(j + 1).map_values(|c: ToolCall| c@) =~= m.tool_calls@.take(j as int).map_values(|c: ToolCall| c@).push(m.tool_calls@[j as int]@));
                j = j + 1;
            }
            assert(m.tool_calls@.take(m.tool_calls@.len() as int) =~= m.tool_calls@);
        }
        i = i + 1;
    }
    assert(ms@.take(ms@.len() as int) =~= ms@);
    out
}

/// The transcript lines of one message: `Human: ...` for the user, `ToolOutput: ...` for a tool,
/// for the assistant an `AI: ...` line when it has text and a `Tools:` line followed by one
/// `  name: arguments` line per call when it made calls, nothing for a system message.
pub open spec fn message_lines(m: Message) -> Seq<Seq<char>> {
    match m.role {
        MessageRole::User => seq!["Human: "@ + m.content@],
        MessageRole::Tool => seq!["ToolOutput: "@ + m.content@],
        MessageRole::Assistant => (if m.content@.len() > 0 {
            seq!["AI: "@ + m.content@]
        } else {
            Seq::empty()
        }) + (if m.tool_calls@.len() > 0 {
            seq!["Tools:"@] + m.tool_calls@.map_values(|c: ToolCall| "  "@ + c.name@ + ": "@ + c.arguments@)
        } else {
            Seq::empty()
        }),
        MessageRole::System => Seq::empty(),
    }
}

/// The transcript lines of a conversation.
pub open spec fn transcript_lines(ms: Seq<Message>) -> Seq<Seq<char>>
    decreases ms.len(),
{
    if ms.len() == 0 {
        Seq::empty()
    } else {
        transcript_lines(ms.drop_last()) + message_lines(ms.last())
    }
}

/// Lines joined by newlines.
pub open spec fn join_lines(ls: Seq<Seq<char>>) -> Seq<char>
    decreases ls.len(),
{
    if ls.len() == 0 {
        Seq::empty()
    } else if ls.len() == 1 {
        ls[0]
    } else {
        join_lines(ls.drop_last()) + "\n"@ + ls.last()
    }
}

fn message_lines_exec(m: &Message) -> (out: Vec<String>)
    ensures
        crate::dataset::strings_view(out@) == message_lines(*m),
{
    let mut out: Vec<String> = Vec::new();
    match m.role {
        MessageRole::User => {
            let mut s = String::new();
            push_str(&mut s, "Human: ");
            push_str(&mut s, m.content.as_str());
            out.push(s);
        },
        MessageRole::Tool => {
            let mut s = String::new();
            push_str(&mut s, "ToolOutput: ");
            push_str(&mut s, m.content.as_str());
            out.push(s);
        },
        MessageRole::Assistant => {
            if !crate::text::str_is_empty(m.content.as_str()) {
                let mut s = String::new();
                push_str(&mut s, "AI: ");
                push_str(&mut s, m.content.as_str());
                out.push(s);
            }
            let ghost first = crate::dataset::strings_view(out@);
            if m.tool_calls.len() > 0 {
                out.push(crate::text::to_owned_string("Tools:"));
                let ghost start = crate::dataset::strings_view(out@);
                let mut j: usize = 0;
                while j < m.tool_calls.len()
                    invariant
                        j <= m.tool_calls@.len(),
                        crate::dataset::strings_view(out@) == start + m.tool_calls@.take(j as int).map_values(|c: ToolCall| "  "@ + c.name@ + ": "@ + c.arguments@),
                    decreases m.tool_calls@.len() - j,
                {
                    let c = &m.tool_calls[j];
                    let mut s = String::new();
                    push_str(&mut s, "  ");
                    push_str(&mut s, c.name.as_str());
                    push_str(&mut s, ": ");
                    push_str(&mut s, c.arguments.as_str());
                    let ghost before = crate::dataset::strings_view(out@);
                    out.push(s);
                    assert(crate::dataset::strings_view(out@) =~= before.push(s@));
                    assert(m.tool_calls@.take(j + 1).map_values(|c: ToolCall| "  "@ + c.name@ + ": "@ + c.arguments@) =~= m.tool_calls@.take(j as int).map_values(|c: ToolCall| "  "@ + c.name@ + ": "@ + c.arguments@).push(s@));
                    j = j + 1;
                }
                assert(m.tool_calls@.take(m.tool_calls@.len() as int) =~= m.tool_calls@);
            }
        },
        MessageRole::System => {},
    }
    assert(crate::dataset::strings_view(out@) =~= message_lines(*m));
    out
}

/// The plain-text transcript of a conversation that the LLM judges read: the lines of each
/// message, joined by newlines.
pub fn render_transcript(messages: &Vec<Message>) -> (out: String)
    ensures
        out@ == join_lines(transcript_lines(messages@)),
{
    let mut lines: Vec<String> = Vec::new();
    let mut i: usize = 0;
    while i < messages.len()
        invariant
            i <= messages@.len(),
            crate::dataset::strings_view(lines@) == transcript_lines(messages@.take(i as int)),
        decreases messages@.len() - i,
    {
        assert(messages@.take(i + 1).drop_last() =~= messages@.take(i as int));
        assert(messages@.take(i + 1).last() == messages@[i as int]);
        let ml = message_lines_exec(&messages[i]);
        let ghost before = crate::dataset::strings_view(lines@);
        let mut j: usize = 0;
        while j < ml.len()
            invariant
                j <= ml@.len(),
                crate::dataset::strings_view(lines@) == before + crate::dataset::strings_view(ml@).take(j as int),
            decreases ml@.len() - j,
        {
            let ghost b2 = crate::dataset::strings_view(lines@);
            lines.push(ml[j].clone());
            assert(crate::dataset::strings_view(lines@) =~= b2.push(ml@[j as int]@));
            assert(crate::dataset::strings_view(ml@).take(j + 1) =~= crate::dataset::strings_view(ml@).take(j as int).push(ml@[j as int]@));
            j = j + 1;
        }
        assert(crate::dataset::strings_view(ml@).take(ml@.len() as int) =~= crate::dataset::strings_view(ml@));
        i = i + 1;
    }
    assert(messages@.take(messages@.len() as int) =~= messages@);
    join_with_newlines(&lines)
}

/// Lines joined by newlines (`[String]::join("\n")`).
pub fn join_with_newlines(lines: &Vec<String>) -> (out: String)
    ensures
        out@ == join_lines(crate::dataset::strings_view(lines@)),
{
    let ghost lv = crate::dataset::strings_view(lines@);
    let mut out = String::new();
    let mut k: usize = 0;
    proof {
        reveal_strlit("\n");
    }
    while k < lines.len()
        invariant
            lv == crate::dataset::strings_view(lines@),
            k <= lines@.len(),
            out@ == join_lines(lv.take(k as int)),
        decreases lines@.len() - k,
    {
        assert(lv.take(k + 1).drop_last() =~= lv.take(k as int));
        assert(lv.take(k + 1).last() == lines@[k as int]@);
        if k > 0 {
            push_str(&mut out, "\n");
        } else {
            assert(out@ =~= Seq::<char>::empty());
        }
        push_str(&mut out, lines[k].as_str());
        k = k + 1;
    }
    assert(lv.take(lines@.len() as int) =~= lv);
    out
}

} // verus!
