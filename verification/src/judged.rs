//! The decisions of the LLM-judged metrics: how a judge's JSON object is located in a model
//! reply, how texts are split into sentences and numbered for a prompt, which statements and
//! questions are kept, and how judge verdicts are counted. Sending the prompts to a model and
//! turning the counts into floating-point scores happen outside the library.
use vstd::prelude::*;

use crate::agentic::{join_lines, join_with_newlines};
use crate::dataset::{opt_string_view, strings_view, SingleTurnSample};
use crate::error::RagasError;
use crate::metrics::NoiseSensitivityMode;
use crate::text::{
    chars_of, decimal, is_blank, lower_seq, lowercase_chars, push_decimal, push_decimal_wide, push_str, split_pieces,
    str_equal, str_is_empty, string_of, string_of_range, strip_end, strip_end_chars, trim, trim_chars, trim_str,
    words, CharClass,
};

verus! {

/// Whether `i` is the position of the first `c` in `s`.
pub open spec fn first_at(s: Seq<char>, c: char, i: int) -> bool {
    &&& 0 <= i < s.len()
    &&& s[i] == c
    &&& forall|j: int| 0 <= j < i ==> s[j] != c
}

/// Whether `i` is the position of the last `c` in `s`.
pub open spec fn last_at(s: Seq<char>, c: char, i: int) -> bool {
    &&& 0 <= i < s.len()
    &&& s[i] == c
    &&& forall|j: int| i < j < s.len() ==> s[j] != c
}

/// The JSON object of a judge reply: the text from the first `{` to the last `}` when both
/// occur and the last `}` does not stand before the first `{`; otherwise the trimmed reply.
pub open spec fn json_block(s: Seq<char>) -> Seq<char> {
    if s.contains('{') && s.contains('}') {
        let i = choose|i: int| first_at(s, '{', i);
        let k = choose|k: int| last_at(s, '}', k);
        if k >= i {
            s.subrange(i, k + 1)
        } else {
            trim(s)
        }
    } else {
        trim(s)
    }
}

fn find_first(s: &Vec<char>, c: char) -> (r: Option<usize>)
    ensures
        match r {
            Some(i) => first_at(s@, c, i as int),
            None => !s@.contains(c),
        },
{
    let mut i: usize = 0;
    while i < s.len()
        invariant
            i <= s@.len(),
            forall|j: int| 0 <= j < i ==> s@[j] != c,
        decreases s@.len() - i,
    {
        if s[i] == c {
            return Some(i);
        }
        i = i + 1;
    }
    None
}

fn find_last(s: &Vec<char>, c: char) -> (r: Option<usize>)
    ensures
        match r {
            Some(i) => last_at(s@, c, i as int),
            None => !s@.contains(c),
        },
{
    let mut k: usize = s.len();
    while k > 0
        invariant
            k <= s@.len(),
            forall|j: int| k <= j < s@.len() ==> s@[j] != c,
        decreases k,
    {
        if s[k - 1] == c {
            return Some(k - 1);
        }
        k = k - 1;
    }
    None
}

/// The JSON object that a judge reply holds, tolerating code fences or prose around it.
pub fn extract_json_block(content: &str) -> (out: String)
    ensures
        out@ == json_block(content@),
{
    let s = chars_of(content);
    let first = find_first(&s, '{');
    let last = find_last(&s, '}');
    match (first, last) {
        (Some(i), Some(k)) => {
            proof {
                assert(s@[i as int] == '{');
                assert(s@[k as int] == '}');
                assert(s@.contains('{'));
                assert(s@.contains('}'));
                let ci = choose|x: int| first_at(s@, '{', x);
                let ck = choose|x: int| last_at(s@, '}', x);
                assert(first_at(s@, '{', ci));
                assert(last_at(s@, '}', ck));
                if ci < i {
                    assert(s@[ci] == '{');
                } else if ci > i {
                    assert(s@[i as int] == '{');
                }
                if ck < k {
                    assert(s@[k as int] == '}');
                } else if ck > k {
                    assert(s@[ck] == '}');
                }
                assert(ci == i && ck == k);
            }
            if k >= i {
                return string_of_range(&s, i, k + 1);
            }
        },
        _ => {},
    }
    trim_str(content)
}

/// Whether a character ends a sentence.
pub open spec fn is_terminator(c: char) -> bool {
    c == '.' || c == '!' || c == '?'
}

/// The trimmed piece as a one-element list, or nothing when it is blank.
pub open spec fn kept_trimmed(piece: Seq<char>) -> Seq<Seq<char>> {
    if trim(piece).len() > 0 {
        seq![trim(piece)]
    } else {
        Seq::empty()
    }
}

/// The sentences of `s` after the partial sentence `cur`: each ends after a `.`, `!` or `?`,
/// which stays with it, and the text after the last terminator is a sentence too; every
/// sentence is trimmed and blank ones are dropped.
pub open spec fn sentences_from(s: Seq<char>, cur: Seq<char>) -> Seq<Seq<char>>
    decreases s.len(),
{
    if s.len() == 0 {
        kept_trimmed(cur)
    } else if is_terminator(s[0]) {
        kept_trimmed(cur.push(s[0])) + sentences_from(s.drop_first(), Seq::empty())
    } else {
        sentences_from(s.drop_first(), cur.push(s[0]))
    }
}

/// The sentences of a text.
pub open spec fn sentences(s: Seq<char>) -> Seq<Seq<char>> {
    sentences_from(s, Seq::empty())
}

/// Splits a text into sentences on `.`, `!` and `?` (a heuristic that knows no abbreviations).
pub fn split_into_sentences(text: &str) -> (out: Vec<String>)
    ensures
        strings_view(out@) == sentences(text@),
{
    let s = chars_of(text);
    let mut out: Vec<String> = Vec::new();
    let mut cur: Vec<char> = Vec::new();
    let mut i: usize = 0;
    assert(s@.skip(0) =~= s@);
    assert(strings_view(out@) =~= Seq::<Seq<char>>::empty());
    assert(cur@ =~= Seq::<char>::empty());
    while i < s.len()
        invariant
            i <= s@.len(),
            s@ == text@,
            strings_view(out@) + sentences_from(s@.skip(i as int), cur@) == sentences(text@),
        decreases s@.len() - i,
    {
        let ghost before = strings_view(out@);
        let ghost rest = s@.skip(i as int);
        assert(rest.drop_first() =~= s@.skip(i + 1));
        assert(rest[0] == s@[i as int]);
        let c = s[i];
        cur.push(c);
        if c == '.' || c == '!' || c == '?' {
            let ghost piece = cur@;
            let t = trim_chars(&cur, CharClass::Whitespace);
            if t.len() > 0 {
                out.push(string_of(&t));
                assert(strings_view(out@) =~= before + kept_trimmed(piece));
            } else {
                assert(kept_trimmed(piece) =~= Seq::<Seq<char>>::empty());
                assert(strings_view(out@) =~= before + kept_trimmed(piece));
            }
            cur = Vec::new();
            assert(cur@ =~= Seq::<char>::empty());
            assert(strings_view(out@) + sentences_from(s@.skip(i + 1), cur@) =~= before + (
            kept_trimmed(piece) + sentences_from(s@.skip(i + 1), Seq::empty())));
        }
        i = i + 1;
    }
    let ghost before = strings_view(out@);
    assert(s@.skip(i as int) =~= Seq::<char>::empty());
    let t = trim_chars(&cur, CharClass::Whitespace);
    if t.len() > 0 {
        out.push(string_of(&t));
        assert(strings_view(out@) =~= before + kept_trimmed(cur@));
    } else {
        assert(strings_view(out@) =~= before + kept_trimmed(cur@));
    }
    out
}


/// One line of a numbered list: `n. item`.
pub open spec fn numbered_line(n: nat, item: Seq<char>) -> Seq<char> {
    decimal(n) + ". "@ + item
}

/// The items numbered from 1, one line each.
pub open spec fn numbered_lines(items: Seq<Seq<char>>) -> Seq<Seq<char>> {
    Seq::new(items.len(), |i: int| numbered_line((i + 1) as nat, items[i]))
}

/// The items as a numbered list, one per line (`1. first`, `2. second`, ...), as the judge
/// prompts present statements, sentences, questions and contexts.
pub fn numbered_list(items: &Vec<String>) -> (out: String)
    ensures
        out@ == join_lines(numbered_lines(strings_view(items@))),
{
    let mut lines: Vec<String> = Vec::new();
    let mut i: usize = 0;
    proof {
        reveal_strlit(". ");
    }
    while i < items.len()
        invariant
            i <= items@.len(),
            strings_view(lines@) == numbered_lines(strings_view(items@)).take(i as int),
        decreases items@.len() - i,
    {
        let mut line = String::new();
        push_decimal(&mut line, i + 1);
        push_str(&mut line, ". ");
        push_str(&mut line, items[i].as_str());
        let ghost before = strings_view(lines@);
        lines.push(line);
        assert(strings_view(lines@) =~= before.push(line@));
        assert(numbered_lines(strings_view(items@)).take(i + 1) =~= numbered_lines(
            strings_view(items@),
        ).take(i as int).push(numbered_line((i + 1) as nat, items@[i as int]@)));
        i = i + 1;
    }
    assert(numbered_lines(strings_view(items@)).take(items@.len() as int) =~= numbered_lines(
        strings_view(items@),
    ));
    join_with_newlines(&lines)
}

/// How many verdicts equal `x`.
pub open spec fn count_equal(v: Seq<i64>, x: i64) -> nat
    decreases v.len(),
{
    if v.len() == 0 {
        0
    } else {
        count_equal(v.drop_last(), x) + if v.last() == x {
            1nat
        } else {
            0nat
        }
    }
}

proof fn lemma_count_equal_bound(v: Seq<i64>, x: i64)
    ensures
        count_equal(v, x) <= v.len(),
    decreases v.len(),
{
    if v.len() > 0 {
        lemma_count_equal_bound(v.drop_last(), x);
    }
}

/// How many judge verdicts equal `value` (the judges answer `1` for yes).
pub fn count_verdicts(verdicts: &Vec<i64>, value: i64) -> (n: usize)
    ensures
        n == count_equal(verdicts@, value),
{
    let mut n: usize = 0;
    let mut i: usize = 0;
    while i < verdicts.len()
        invariant
            i <= verdicts@.len(),
            n == count_equal(verdicts@.take(i as int), value),
        decreases verdicts@.len() - i,
    {
        assert(verdicts@.take(i + 1).drop_last() =~= verdicts@.take(i as int));
        proof {
            lemma_count_equal_bound(verdicts@.take(i as int), value);
        }
        if verdicts[i] == value {
            n = n + 1;
        }
        i = i + 1;
    }
    assert(verdicts@.take(verdicts@.len() as int) =~= verdicts@);
    n
}

/// The items trimmed, without the blank ones.
pub open spec fn trimmed_nonblank(items: Seq<Seq<char>>) -> Seq<Seq<char>>
    decreases items.len(),
{
    if items.len() == 0 {
        Seq::empty()
    } else {
        trimmed_nonblank(items.drop_last()) + kept_trimmed(items.last())
    }
}

/// The statements a judge extracted, trimmed, without the blank ones.
pub fn clean_statements(items: &Vec<String>) -> (out: Vec<String>)
    ensures
        strings_view(out@) == trimmed_nonblank(strings_view(items@)),
{
    let mut out: Vec<String> = Vec::new();
    let mut i: usize = 0;
    while i < items.len()
        invariant
            i <= items@.len(),
            strings_view(out@) == trimmed_nonblank(strings_view(items@).take(i as int)),
        decreases items@.len() - i,
    {
        assert(strings_view(items@).take(i + 1).drop_last() =~= strings_view(items@).take(
            i as int,
        ));
        let ghost before = strings_view(out@);
        if !is_blank(items[i].as_str()) {
            out.push(trim_str(items[i].as_str()));
        }
        assert(strings_view(out@) =~= before + kept_trimmed(items@[i as int]@));
        i = i + 1;
    }
    assert(strings_view(items@).take(items@.len() as int) =~= strings_view(items@));
    out
}

/// The items that are not blank, unchanged.
pub open spec fn nonblank(items: Seq<Seq<char>>) -> Seq<Seq<char>>
    decreases items.len(),
{
    if items.len() == 0 {
        Seq::empty()
    } else if trim(items.last()).len() > 0 {
        nonblank(items.drop_last()).push(items.last())
    } else {
        nonblank(items.drop_last())
    }
}

/// The questions a judge generated, without the blank ones.
pub fn nonblank_questions(items: &Vec<String>) -> (out: Vec<String>)
    ensures
        strings_view(out@) == nonblank(strings_view(items@)),
{
    let mut out: Vec<String> = Vec::new();
    let mut i: usize = 0;
    while i < items.len()
        invariant
            i <= items@.len(),
            strings_view(out@) == nonblank(strings_view(items@).take(i as int)),
        decreases items@.len() - i,
    {
        assert(strings_view(items@).take(i + 1).drop_last() =~= strings_view(items@).take(
            i as int,
        ));
        let ghost before = strings_view(out@);
        if !is_blank(items[i].as_str()) {
            out.push(items[i].clone());
            assert(strings_view(out@) =~= before.push(items@[i as int]@));
        }
        i = i + 1;
    }
    assert(strings_view(items@).take(items@.len() as int) =~= strings_view(items@));
    out
}

/// The retrieved contexts and the reference that a judge prompt appends when present: a
/// `CONTEXT` block of the contexts one per line when there are any, and a `REFERENCE` line
/// when the reference is present and not blank.
pub open spec fn optional_fields_text(contexts: Seq<Seq<char>>, reference: Option<Seq<char>>) -> Seq<
    char,
> {
    (if contexts.len() > 0 {
        "\nCONTEXT:\n"@ + join_lines(contexts)
    } else {
        Seq::empty()
    }) + match reference {
        Some(r) => if trim(r).len() > 0 {
            "\nREFERENCE: "@ + r
        } else {
            Seq::empty()
        },
        None => Seq::empty(),
    }
}

/// The optional `CONTEXT` and `REFERENCE` fields of a sample, for a judge prompt.
pub fn optional_fields_block(sample: &SingleTurnSample) -> (out: String)
    ensures
        out@ == optional_fields_text(
            strings_view(sample.retrieved_contexts@),
            opt_string_view(sample.reference),
        ),
{
    let mut out = String::new();
    if sample.retrieved_contexts.len() > 0 {
        push_str(&mut out, "\nCONTEXT:\n");
        let joined = join_with_newlines(&sample.retrieved_contexts);
        push_str(&mut out, joined.as_str());
    }
    let ghost first = out@;
    match &sample.reference {
        Some(r) => {
            if !is_blank(r.as_str()) {
                push_str(&mut out, "\nREFERENCE: ");
                push_str(&mut out, r.as_str());
            }
        },
        None => {},
    }
    assert(out@ =~= optional_fields_text(
        strings_view(sample.retrieved_contexts@),
        opt_string_view(sample.reference),
    ));
    out
}


/// The `CONTEXT` block of the retrieved contexts, empty when there are none.
pub fn context_block(contexts: &Vec<String>) -> (out: String)
    ensures
        out@ == optional_fields_text(strings_view(contexts@), None),
{
    let mut out = String::new();
    if contexts.len() > 0 {
        push_str(&mut out, "\nCONTEXT:\n");
        let joined = join_with_newlines(contexts);
        push_str(&mut out, joined.as_str());
    }
    assert(out@ =~= optional_fields_text(strings_view(contexts@), None));
    out
}

/// The prompt that asks a judge to break an answer into atomic statements.
pub open spec fn statements_prompt_text(question: Seq<char>, answer: Seq<char>) -> Seq<char> {
    "Break the ANSWER into a list of standalone, atomic factual statements. Each statement must be fully self-contained, resolving any pronouns using the QUESTION. Return only JSON of the form {\"statements\": [\"...\"]}.\n\nQUESTION: "@
        + question
        + "\nANSWER: "@
        + answer
}

/// The prompt that asks a judge to break an answer into atomic statements.
pub fn statements_prompt(question: &str, answer: &str) -> (out: String)
    ensures
        out@ == statements_prompt_text(question@, answer@),
{
    let mut out = String::new();
    push_str(&mut out, "Break the ANSWER into a list of standalone, atomic factual statements. Each statement must be fully self-contained, resolving any pronouns using the QUESTION. Return only JSON of the form {\"statements\": [\"...\"]}.\n\nQUESTION: ");
    push_str(&mut out, question);
    push_str(&mut out, "\nANSWER: ");
    push_str(&mut out, answer);
    assert(out@ =~= statements_prompt_text(question@, answer@));
    out
}

/// The prompt that asks a judge whether each statement follows from the retrieved contexts, with a reason per statement.
pub open spec fn faithfulness_verification_prompt_text(contexts: Seq<Seq<char>>, statements: Seq<Seq<char>>) -> Seq<char> {
    "For each STATEMENT decide whether it can be directly inferred from the CONTEXT. Use verdict 1 when the statement is supported by the context, 0 otherwise. Return only JSON of the form {\"verdicts\": [{\"statement\": \"...\", \"verdict\": 0, \"reason\": \"...\"}]} with exactly one entry per statement, in the same order.\n\nCONTEXT:\n"@
        + join_lines(contexts)
        + "\n\nSTATEMENTS:\n"@
        + join_lines(numbered_lines(statements))
}

/// The prompt that asks a judge whether each statement follows from the retrieved contexts, with a reason per statement.
pub fn faithfulness_verification_prompt(contexts: &Vec<String>, statements: &Vec<String>) -> (out: String)
    ensures
        out@ == faithfulness_verification_prompt_text(strings_view(contexts@), strings_view(statements@)),
{
    let mut out = String::new();
    push_str(&mut out, "For each STATEMENT decide whether it can be directly inferred from the CONTEXT. Use verdict 1 when the statement is supported by the context, 0 otherwise. Return only JSON of the form {\"verdicts\": [{\"statement\": \"...\", \"verdict\": 0, \"reason\": \"...\"}]} with exactly one entry per statement, in the same order.\n\nCONTEXT:\n");
    let contexts_text = join_with_newlines(contexts);
    push_str(&mut out, contexts_text.as_str());
    push_str(&mut out, "\n\nSTATEMENTS:\n");
    let statements_text = numbered_list(statements);
    push_str(&mut out, statements_text.as_str());
    assert(out@ =~= faithfulness_verification_prompt_text(strings_view(contexts@), strings_view(statements@)));
    out
}

/// The prompt that asks a judge whether each statement follows from a given context.
pub open spec fn statements_against_prompt_text(context: Seq<char>, statements: Seq<Seq<char>>) -> Seq<char> {
    "For each STATEMENT decide whether it can be directly inferred from the CONTEXT. Use verdict 1 when the statement is supported by the context, 0 otherwise. Return only JSON of the form {\"verdicts\": [{\"verdict\": 0}]} with exactly one entry per statement, in order.\n\nCONTEXT:\n"@
        + context
        + "\n\nSTATEMENTS:\n"@
        + join_lines(numbered_lines(statements))
}

/// The prompt that asks a judge whether each statement follows from a given context.
pub fn statements_against_prompt(context: &str, statements: &Vec<String>) -> (out: String)
    ensures
        out@ == statements_against_prompt_text(context@, strings_view(statements@)),
{
    let mut out = String::new();
    push_str(&mut out, "For each STATEMENT decide whether it can be directly inferred from the CONTEXT. Use verdict 1 when the statement is supported by the context, 0 otherwise. Return only JSON of the form {\"verdicts\": [{\"verdict\": 0}]} with exactly one entry per statement, in order.\n\nCONTEXT:\n");
    push_str(&mut out, context);
    push_str(&mut out, "\n\nSTATEMENTS:\n");
    let statements_text = numbered_list(statements);
    push_str(&mut out, statements_text.as_str());
    assert(out@ =~= statements_against_prompt_text(context@, strings_view(statements@)));
    out
}

/// The prompt that asks a judge for `n` questions that a response answers, each marked noncommittal or not.
pub open spec fn response_relevancy_prompt_text(n: nat, response: Seq<char>, contexts: Seq<Seq<char>>) -> Seq<char> {
    "Generate "@
        + decimal(n)
        + " question(s) that the RESPONSE below answers. For each question set \"noncommittal\" to 1 when the response is evasive, vague, or non-committal (for example 'I don't know' or 'I am not sure'), otherwise 0. Return only JSON of the form {\"questions\": [{\"question\": \"...\", \"noncommittal\": 0}]} with exactly "@
        + decimal(n)
        + " entries.\n\nRESPONSE: "@
        + response
        + optional_fields_text(contexts, None)
}

/// The prompt that asks a judge for `n` questions that a response answers, each marked noncommittal or not.
pub fn response_relevancy_prompt(n: usize, response: &str, contexts: &Vec<String>) -> (out: String)
    ensures
        out@ == response_relevancy_prompt_text(n as nat, response@, strings_view(contexts@)),
{
    let mut out = String::new();
    push_str(&mut out, "Generate ");
    push_decimal(&mut out, n);
    push_str(&mut out, " question(s) that the RESPONSE below answers. For each question set \"noncommittal\" to 1 when the response is evasive, vague, or non-committal (for example 'I don't know' or 'I am not sure'), otherwise 0. Return only JSON of the form {\"questions\": [{\"question\": \"...\", \"noncommittal\": 0}]} with exactly ");
    push_decimal(&mut out, n);
    push_str(&mut out, " entries.\n\nRESPONSE: ");
    push_str(&mut out, response);
    let contexts_text = context_block(contexts);
    push_str(&mut out, contexts_text.as_str());
    assert(out@ =~= response_relevancy_prompt_text(n as nat, response@, strings_view(contexts@)));
    out
}

/// The prompt that asks a judge whether one context was useful to arrive at an answer.
pub open spec fn context_usefulness_prompt_text(question: Seq<char>, answer: Seq<char>, context: Seq<char>) -> Seq<char> {
    "Given a QUESTION, an ANSWER, and a CONTEXT, decide whether the context was useful to arrive at the answer. Use verdict 1 when the context is useful, 0 otherwise. Return only JSON of the form {\"verdict\": 0, \"reason\": \"...\"}.\n\nQUESTION: "@
        + question
        + "\nANSWER: "@
        + answer
        + "\nCONTEXT: "@
        + context
}

/// The prompt that asks a judge whether one context was useful to arrive at an answer.
pub fn context_usefulness_prompt(question: &str, answer: &str, context: &str) -> (out: String)
    ensures
        out@ == context_usefulness_prompt_text(question@, answer@, context@),
{
    let mut out = String::new();
    push_str(&mut out, "Given a QUESTION, an ANSWER, and a CONTEXT, decide whether the context was useful to arrive at the answer. Use verdict 1 when the context is useful, 0 otherwise. Return only JSON of the form {\"verdict\": 0, \"reason\": \"...\"}.\n\nQUESTION: ");
    push_str(&mut out, question);
    push_str(&mut out, "\nANSWER: ");
    push_str(&mut out, answer);
    push_str(&mut out, "\nCONTEXT: ");
    push_str(&mut out, context);
    assert(out@ =~= context_usefulness_prompt_text(question@, answer@, context@));
    out
}

/// The prompt that asks a judge whether each numbered sentence of an answer can be attributed to the retrieved contexts.
pub open spec fn context_recall_prompt_text(question: Seq<char>, contexts: Seq<Seq<char>>, sentences: Seq<Seq<char>>) -> Seq<char> {
    "Given a QUESTION, the retrieved CONTEXT, and an ANSWER split into numbered sentences, decide for each sentence whether it can be attributed to the context. Use verdict 1 when the sentence is supported by the context, 0 otherwise. Return only JSON of the form {\"classifications\": [{\"verdict\": 0, \"reason\": \"...\"}]} with exactly one entry per sentence, in the same order.\n\nQUESTION: "@
        + question
        + "\n\nCONTEXT:\n"@
        + join_lines(contexts)
        + "\n\nANSWER SENTENCES:\n"@
        + join_lines(numbered_lines(sentences))
}

/// The prompt that asks a judge whether each numbered sentence of an answer can be attributed to the retrieved contexts.
pub fn context_recall_prompt(question: &str, contexts: &Vec<String>, sentences: &Vec<String>) -> (out: String)
    ensures
        out@ == context_recall_prompt_text(question@, strings_view(contexts@), strings_view(sentences@)),
{
    let mut out = String::new();
    push_str(&mut out, "Given a QUESTION, the retrieved CONTEXT, and an ANSWER split into numbered sentences, decide for each sentence whether it can be attributed to the context. Use verdict 1 when the sentence is supported by the context, 0 otherwise. Return only JSON of the form {\"classifications\": [{\"verdict\": 0, \"reason\": \"...\"}]} with exactly one entry per sentence, in the same order.\n\nQUESTION: ");
    push_str(&mut out, question);
    push_str(&mut out, "\n\nCONTEXT:\n");
    let contexts_text = join_with_newlines(contexts);
    push_str(&mut out, contexts_text.as_str());
    push_str(&mut out, "\n\nANSWER SENTENCES:\n");
    let sentences_text = numbered_list(sentences);
    push_str(&mut out, sentences_text.as_str());
    assert(out@ =~= context_recall_prompt_text(question@, strings_view(contexts@), strings_view(sentences@)));
    out
}

/// The prompt that asks a judge whether a submission meets a criterion.
pub open spec fn aspect_critic_prompt_text(criterion: Seq<char>, question: Seq<char>, submission: Seq<char>, sample_contexts: Seq<Seq<char>>, sample_reference: Option<Seq<char>>) -> Seq<char> {
    "Evaluate whether the SUBMISSION meets the CRITERION. Use verdict 1 when it meets the criterion, 0 otherwise. Return only JSON of the form {\"verdict\": 0, \"reason\": \"...\"}.\n\nCRITERION: "@
        + criterion
        + "\n\nQUESTION: "@
        + question
        + "\nSUBMISSION: "@
        + submission
        + optional_fields_text(sample_contexts, sample_reference)
}

/// The prompt that asks a judge whether a submission meets a criterion.
pub fn aspect_critic_prompt(criterion: &str, question: &str, submission: &str, sample: &SingleTurnSample) -> (out: String)
    ensures
        out@ == aspect_critic_prompt_text(criterion@, question@, submission@, strings_view(sample.retrieved_contexts@), opt_string_view(sample.reference)),
{
    let mut out = String::new();
    push_str(&mut out, "Evaluate whether the SUBMISSION meets the CRITERION. Use verdict 1 when it meets the criterion, 0 otherwise. Return only JSON of the form {\"verdict\": 0, \"reason\": \"...\"}.\n\nCRITERION: ");
    push_str(&mut out, criterion);
    push_str(&mut out, "\n\nQUESTION: ");
    push_str(&mut out, question);
    push_str(&mut out, "\nSUBMISSION: ");
    push_str(&mut out, submission);
    let sample_text = optional_fields_block(sample);
    push_str(&mut out, sample_text.as_str());
    assert(out@ =~= aspect_critic_prompt_text(criterion@, question@, submission@, strings_view(sample.retrieved_contexts@), opt_string_view(sample.reference)));
    out
}

/// The prompt that asks a judge for an integer score of a submission on a criterion's scale.
pub open spec fn simple_criteria_prompt_text(criterion: Seq<char>, question: Seq<char>, submission: Seq<char>, sample_contexts: Seq<Seq<char>>, sample_reference: Option<Seq<char>>) -> Seq<char> {
    "Score the SUBMISSION against the CRITERION. Return only JSON of the form {\"score\": 0, \"reason\": \"...\"} where score is an integer that follows the criterion's scale.\n\nCRITERION: "@
        + criterion
        + "\n\nQUESTION: "@
        + question
        + "\nSUBMISSION: "@
        + submission
        + optional_fields_text(sample_contexts, sample_reference)
}

/// The prompt that asks a judge for an integer score of a submission on a criterion's scale.
pub fn simple_criteria_prompt(criterion: &str, question: &str, submission: &str, sample: &SingleTurnSample) -> (out: String)
    ensures
        out@ == simple_criteria_prompt_text(criterion@, question@, submission@, strings_view(sample.retrieved_contexts@), opt_string_view(sample.reference)),
{
    let mut out = String::new();
    push_str(&mut out, "Score the SUBMISSION against the CRITERION. Return only JSON of the form {\"score\": 0, \"reason\": \"...\"} where score is an integer that follows the criterion's scale.\n\nCRITERION: ");
    push_str(&mut out, criterion);
    push_str(&mut out, "\n\nQUESTION: ");
    push_str(&mut out, question);
    push_str(&mut out, "\nSUBMISSION: ");
    push_str(&mut out, submission);
    let sample_text = optional_fields_block(sample);
    push_str(&mut out, sample_text.as_str());
    assert(out@ =~= simple_criteria_prompt_text(criterion@, question@, submission@, strings_view(sample.retrieved_contexts@), opt_string_view(sample.reference)));
    out
}

/// The prompt that asks a judge whether two SQL queries return the same result set for a schema.
pub open spec fn sql_equivalence_prompt_text(schema: Seq<char>, expected: Seq<char>, actual: Seq<char>) -> Seq<char> {
    "Decide whether the ACTUAL SQL query is semantically equivalent to the EXPECTED SQL query for the given DATABASE SCHEMA. They may differ in formatting, aliases, or column order but must return the same result set. Use verdict 1 when equivalent, 0 otherwise. Return only JSON of the form {\"verdict\": 0, \"reason\": \"...\"}.\n\nDATABASE SCHEMA:\n"@
        + schema
        + "\n\nEXPECTED SQL: "@
        + expected
        + "\nACTUAL SQL: "@
        + actual
}

/// The prompt that asks a judge whether two SQL queries return the same result set for a schema.
pub fn sql_equivalence_prompt(schema: &str, expected: &str, actual: &str) -> (out: String)
    ensures
        out@ == sql_equivalence_prompt_text(schema@, expected@, actual@),
{
    let mut out = String::new();
    push_str(&mut out, "Decide whether the ACTUAL SQL query is semantically equivalent to the EXPECTED SQL query for the given DATABASE SCHEMA. They may differ in formatting, aliases, or column order but must return the same result set. Use verdict 1 when equivalent, 0 otherwise. Return only JSON of the form {\"verdict\": 0, \"reason\": \"...\"}.\n\nDATABASE SCHEMA:\n");
    push_str(&mut out, schema);
    push_str(&mut out, "\n\nEXPECTED SQL: ");
    push_str(&mut out, expected);
    push_str(&mut out, "\nACTUAL SQL: ");
    push_str(&mut out, actual);
    assert(out@ =~= sql_equivalence_prompt_text(schema@, expected@, actual@));
    out
}

/// The prompt that asks a judge to sort the statements of an answer and a ground truth into TP, FP and FN for answer correctness.
pub open spec fn answer_correctness_prompt_text(question: Seq<char>, answer: Seq<char>, ground_truth: Seq<char>) -> Seq<char> {
    "Compare the ANSWER to the GROUND TRUTH for the QUESTION. Decompose both into atomic statements and classify each statement into one list: \"TP\" (present in both the answer and the ground truth), \"FP\" (present in the answer but not supported by the ground truth), or \"FN\" (present in the ground truth but missing from the answer). Return only JSON of the form {\"TP\": [\"...\"], \"FP\": [\"...\"], \"FN\": [\"...\"]}.\n\nQUESTION: "@
        + question
        + "\nANSWER: "@
        + answer
        + "\nGROUND TRUTH: "@
        + ground_truth
}

/// The prompt that asks a judge to sort the statements of an answer and a ground truth into TP, FP and FN for answer correctness.
pub fn answer_correctness_prompt(question: &str, answer: &str, ground_truth: &str) -> (out: String)
    ensures
        out@ == answer_correctness_prompt_text(question@, answer@, ground_truth@),
{
    let mut out = String::new();
    push_str(&mut out, "Compare the ANSWER to the GROUND TRUTH for the QUESTION. Decompose both into atomic statements and classify each statement into one list: \"TP\" (present in both the answer and the ground truth), \"FP\" (present in the answer but not supported by the ground truth), or \"FN\" (present in the ground truth but missing from the answer). Return only JSON of the form {\"TP\": [\"...\"], \"FP\": [\"...\"], \"FN\": [\"...\"]}.\n\nQUESTION: ");
    push_str(&mut out, question);
    push_str(&mut out, "\nANSWER: ");
    push_str(&mut out, answer);
    push_str(&mut out, "\nGROUND TRUTH: ");
    push_str(&mut out, ground_truth);
    assert(out@ =~= answer_correctness_prompt_text(question@, answer@, ground_truth@));
    out
}

/// The prompt that asks a judge to sort the statements of an answer and a ground truth into TP, FP and FN for factual correctness.
pub open spec fn factual_classification_prompt_text(question: Seq<char>, answer: Seq<char>, ground_truth: Seq<char>) -> Seq<char> {
    "Compare the ANSWER to the GROUND TRUTH for the QUESTION. Decompose both into atomic statements and classify each into one list: \"TP\" (present in both), \"FP\" (in the answer but not supported by the ground truth), or \"FN\" (in the ground truth but missing from the answer). Return only JSON of the form {\"TP\": [\"...\"], \"FP\": [\"...\"], \"FN\": [\"...\"]}.\n\nQUESTION: "@
        + question
        + "\nANSWER: "@
        + answer
        + "\nGROUND TRUTH: "@
        + ground_truth
}

/// The prompt that asks a judge to sort the statements of an answer and a ground truth into TP, FP and FN for factual correctness.
pub fn factual_classification_prompt(question: &str, answer: &str, ground_truth: &str) -> (out: String)
    ensures
        out@ == factual_classification_prompt_text(question@, answer@, ground_truth@),
{
    let mut out = String::new();
    push_str(&mut out, "Compare the ANSWER to the GROUND TRUTH for the QUESTION. Decompose both into atomic statements and classify each into one list: \"TP\" (present in both), \"FP\" (in the answer but not supported by the ground truth), or \"FN\" (in the ground truth but missing from the answer). Return only JSON of the form {\"TP\": [\"...\"], \"FP\": [\"...\"], \"FN\": [\"...\"]}.\n\nQUESTION: ");
    push_str(&mut out, question);
    push_str(&mut out, "\nANSWER: ");
    push_str(&mut out, answer);
    push_str(&mut out, "\nGROUND TRUTH: ");
    push_str(&mut out, ground_truth);
    assert(out@ =~= factual_classification_prompt_text(question@, answer@, ground_truth@));
    out
}

/// The prompt that asks a judge to rate an answer against a reference with 0, 2 or 4.
pub open spec fn answer_accuracy_prompt_text(question: Seq<char>, reference: Seq<char>, answer: Seq<char>) -> Seq<char> {
    "Rate how well the ANSWER matches the REFERENCE for the QUESTION. Use 4 = fully correct/equivalent, 2 = partially correct, 0 = incorrect. Return only JSON of the form {\"rating\": 0, \"reason\": \"...\"}.\n\nQUESTION: "@
        + question
        + "\nREFERENCE: "@
        + reference
        + "\nANSWER: "@
        + answer
}

/// The prompt that asks a judge to rate an answer against a reference with 0, 2 or 4.
pub fn answer_accuracy_prompt(question: &str, reference: &str, answer: &str) -> (out: String)
    ensures
        out@ == answer_accuracy_prompt_text(question@, reference@, answer@),
{
    let mut out = String::new();
    push_str(&mut out, "Rate how well the ANSWER matches the REFERENCE for the QUESTION. Use 4 = fully correct/equivalent, 2 = partially correct, 0 = incorrect. Return only JSON of the form {\"rating\": 0, \"reason\": \"...\"}.\n\nQUESTION: ");
    push_str(&mut out, question);
    push_str(&mut out, "\nREFERENCE: ");
    push_str(&mut out, reference);
    push_str(&mut out, "\nANSWER: ");
    push_str(&mut out, answer);
    assert(out@ =~= answer_accuracy_prompt_text(question@, reference@, answer@));
    out
}

/// The prompt that asks a judge for the named entities of a text.
pub open spec fn entity_extraction_prompt_text(text: Seq<char>) -> Seq<char> {
    "Extract the named entities (people, places, organizations, dates, products, numbers) mentioned in the TEXT. Return only JSON of the form {\"entities\": [\"...\"]}.\n\nTEXT: "@
        + text
}

/// The prompt that asks a judge for the named entities of a text.
pub fn entity_extraction_prompt(text: &str) -> (out: String)
    ensures
        out@ == entity_extraction_prompt_text(text@),
{
    let mut out = String::new();
    push_str(&mut out, "Extract the named entities (people, places, organizations, dates, products, numbers) mentioned in the TEXT. Return only JSON of the form {\"entities\": [\"...\"]}.\n\nTEXT: ");
    push_str(&mut out, text);
    assert(out@ =~= entity_extraction_prompt_text(text@));
    out
}

/// The prompt that asks a judge to rate how relevant the retrieved contexts are to a question.
pub open spec fn context_relevance_prompt_text(question: Seq<char>, contexts: Seq<Seq<char>>) -> Seq<char> {
    "Rate how relevant the CONTEXT is for answering the QUESTION. Use 4 = fully relevant, 2 = partially relevant, 0 = irrelevant. Return only JSON of the form {\"rating\": 0, \"reason\": \"...\"}.\n\nQUESTION: "@
        + question
        + "\nCONTEXT:\n"@
        + join_lines(contexts)
}

/// The prompt that asks a judge to rate how relevant the retrieved contexts are to a question.
pub fn context_relevance_prompt(question: &str, contexts: &Vec<String>) -> (out: String)
    ensures
        out@ == context_relevance_prompt_text(question@, strings_view(contexts@)),
{
    let mut out = String::new();
    push_str(&mut out, "Rate how relevant the CONTEXT is for answering the QUESTION. Use 4 = fully relevant, 2 = partially relevant, 0 = irrelevant. Return only JSON of the form {\"rating\": 0, \"reason\": \"...\"}.\n\nQUESTION: ");
    push_str(&mut out, question);
    push_str(&mut out, "\nCONTEXT:\n");
    let contexts_text = join_with_newlines(contexts);
    push_str(&mut out, contexts_text.as_str());
    assert(out@ =~= context_relevance_prompt_text(question@, strings_view(contexts@)));
    out
}

/// The prompt that asks a judge to rate how well a response is grounded in the retrieved contexts.
pub open spec fn response_groundedness_prompt_text(contexts: Seq<Seq<char>>, response: Seq<char>) -> Seq<char> {
    "Rate how well the RESPONSE is grounded in (directly supported by) the CONTEXT. Use 4 = fully grounded, 2 = partially grounded, 0 = not grounded. Return only JSON of the form {\"rating\": 0, \"reason\": \"...\"}.\n\nCONTEXT:\n"@
        + join_lines(contexts)
        + "\nRESPONSE: "@
        + response
}

/// The prompt that asks a judge to rate how well a response is grounded in the retrieved contexts.
pub fn response_groundedness_prompt(contexts: &Vec<String>, response: &str) -> (out: String)
    ensures
        out@ == response_groundedness_prompt_text(strings_view(contexts@), response@),
{
    let mut out = String::new();
    push_str(&mut out, "Rate how well the RESPONSE is grounded in (directly supported by) the CONTEXT. Use 4 = fully grounded, 2 = partially grounded, 0 = not grounded. Return only JSON of the form {\"rating\": 0, \"reason\": \"...\"}.\n\nCONTEXT:\n");
    let contexts_text = join_with_newlines(contexts);
    push_str(&mut out, contexts_text.as_str());
    push_str(&mut out, "\nRESPONSE: ");
    push_str(&mut out, response);
    assert(out@ =~= response_groundedness_prompt_text(strings_view(contexts@), response@));
    out
}

/// The prompt that asks a judge to score a submission with a rubric.
pub open spec fn rubrics_prompt_text(rubric: Seq<char>, question: Seq<char>, submission: Seq<char>, sample_contexts: Seq<Seq<char>>, sample_reference: Option<Seq<char>>) -> Seq<char> {
    "Score the SUBMISSION using the RUBRIC, returning the single best-matching integer score. Return only JSON of the form {\"score\": 0, \"feedback\": \"...\"}.\n\nRUBRIC:\n"@
        + rubric
        + "\n\nQUESTION: "@
        + question
        + "\nSUBMISSION: "@
        + submission
        + optional_fields_text(sample_contexts, sample_reference)
}

/// The prompt that asks a judge to score a submission with a rubric.
pub fn rubrics_prompt(rubric: &str, question: &str, submission: &str, sample: &SingleTurnSample) -> (out: String)
    ensures
        out@ == rubrics_prompt_text(rubric@, question@, submission@, strings_view(sample.retrieved_contexts@), opt_string_view(sample.reference)),
{
    let mut out = String::new();
    push_str(&mut out, "Score the SUBMISSION using the RUBRIC, returning the single best-matching integer score. Return only JSON of the form {\"score\": 0, \"feedback\": \"...\"}.\n\nRUBRIC:\n");
    push_str(&mut out, rubric);
    push_str(&mut out, "\n\nQUESTION: ");
    push_str(&mut out, question);
    push_str(&mut out, "\nSUBMISSION: ");
    push_str(&mut out, submission);
    let sample_text = optional_fields_block(sample);
    push_str(&mut out, sample_text.as_str());
    assert(out@ =~= rubrics_prompt_text(rubric@, question@, submission@, strings_view(sample.retrieved_contexts@), opt_string_view(sample.reference)));
    out
}

/// The prompt that asks a judge to score a submission with the rubric of its own instance and give feedback.
pub open spec fn instance_rubrics_prompt_text(rubric: Seq<char>, question: Seq<char>, submission: Seq<char>, sample_contexts: Seq<Seq<char>>, sample_reference: Option<Seq<char>>) -> Seq<char> {
    "Assign an appropriate score and provide feedback to the inputs based solely on the scoring criteria (RUBRIC). Return only JSON of the form {\"score\": 0, \"feedback\": \"...\"}.\n\nRUBRIC:\n"@
        + rubric
        + "\n\nQUESTION: "@
        + question
        + "\nSUBMISSION: "@
        + submission
        + optional_fields_text(sample_contexts, sample_reference)
}

/// The prompt that asks a judge to score a submission with the rubric of its own instance and give feedback.
pub fn instance_rubrics_prompt(rubric: &str, question: &str, submission: &str, sample: &SingleTurnSample) -> (out: String)
    ensures
        out@ == instance_rubrics_prompt_text(rubric@, question@, submission@, strings_view(sample.retrieved_contexts@), opt_string_view(sample.reference)),
{
    let mut out = String::new();
    push_str(&mut out, "Assign an appropriate score and provide feedback to the inputs based solely on the scoring criteria (RUBRIC). Return only JSON of the form {\"score\": 0, \"feedback\": \"...\"}.\n\nRUBRIC:\n");
    push_str(&mut out, rubric);
    push_str(&mut out, "\n\nQUESTION: ");
    push_str(&mut out, question);
    push_str(&mut out, "\nSUBMISSION: ");
    push_str(&mut out, submission);
    let sample_text = optional_fields_block(sample);
    push_str(&mut out, sample_text.as_str());
    assert(out@ =~= instance_rubrics_prompt_text(rubric@, question@, submission@, strings_view(sample.retrieved_contexts@), opt_string_view(sample.reference)));
    out
}

/// The prompt that asks a judge for `n` yes/no questions about the key facts of a source.
pub open spec fn summarization_questions_prompt_text(n: nat, source: Seq<Seq<char>>) -> Seq<char> {
    "Generate "@
        + decimal(n)
        + " yes/no questions that test whether a summary captures the key facts of the SOURCE. Return only JSON of the form {\"questions\": [\"...\"]}.\n\nSOURCE:\n"@
        + join_lines(source)
}

/// The prompt that asks a judge for `n` yes/no questions about the key facts of a source.
pub fn summarization_questions_prompt(n: usize, source: &Vec<String>) -> (out: String)
    ensures
        out@ == summarization_questions_prompt_text(n as nat, strings_view(source@)),
{
    let mut out = String::new();
    push_str(&mut out, "Generate ");
    push_decimal(&mut out, n);
    push_str(&mut out, " yes/no questions that test whether a summary captures the key facts of the SOURCE. Return only JSON of the form {\"questions\": [\"...\"]}.\n\nSOURCE:\n");
    let source_text = join_with_newlines(source);
    push_str(&mut out, source_text.as_str());
    assert(out@ =~= summarization_questions_prompt_text(n as nat, strings_view(source@)));
    out
}

/// The prompt that asks a judge to answer numbered questions from a summary alone.
pub open spec fn summarization_answers_prompt_text(summary: Seq<char>, questions: Seq<Seq<char>>) -> Seq<char> {
    "Using ONLY the SUMMARY, answer each QUESTION with verdict 1 when the summary supports a 'yes' and 0 otherwise. Return only JSON of the form {\"answers\": [{\"verdict\": 0}]} with exactly one entry per question, in order.\n\nSUMMARY: "@
        + summary
        + "\n\nQUESTIONS:\n"@
        + join_lines(numbered_lines(questions))
}

/// The prompt that asks a judge to answer numbered questions from a summary alone.
pub fn summarization_answers_prompt(summary: &str, questions: &Vec<String>) -> (out: String)
    ensures
        out@ == summarization_answers_prompt_text(summary@, strings_view(questions@)),
{
    let mut out = String::new();
    push_str(&mut out, "Using ONLY the SUMMARY, answer each QUESTION with verdict 1 when the summary supports a 'yes' and 0 otherwise. Return only JSON of the form {\"answers\": [{\"verdict\": 0}]} with exactly one entry per question, in order.\n\nSUMMARY: ");
    push_str(&mut out, summary);
    push_str(&mut out, "\n\nQUESTIONS:\n");
    let questions_text = numbered_list(questions);
    push_str(&mut out, questions_text.as_str());
    assert(out@ =~= summarization_answers_prompt_text(summary@, strings_view(questions@)));
    out
}

/// The prompt that asks a judge whether a ground truth can be attributed to each numbered context.
pub open spec fn noise_context_relevance_prompt_text(ground_truth: Seq<char>, contexts: Seq<Seq<char>>) -> Seq<char> {
    "For each CONTEXT decide whether the GROUND TRUTH answer can be attributed to (inferred from) it. Use verdict 1 when the ground truth is supported by that context, 0 otherwise. Return only JSON of the form {\"verdicts\": [{\"verdict\": 0}]} with exactly one entry per context, in order.\n\nGROUND TRUTH: "@
        + ground_truth
        + "\n\nCONTEXTS:\n"@
        + join_lines(numbered_lines(contexts))
}

/// The prompt that asks a judge whether a ground truth can be attributed to each numbered context.
pub fn noise_context_relevance_prompt(ground_truth: &str, contexts: &Vec<String>) -> (out: String)
    ensures
        out@ == noise_context_relevance_prompt_text(ground_truth@, strings_view(contexts@)),
{
    let mut out = String::new();
    push_str(&mut out, "For each CONTEXT decide whether the GROUND TRUTH answer can be attributed to (inferred from) it. Use verdict 1 when the ground truth is supported by that context, 0 otherwise. Return only JSON of the form {\"verdicts\": [{\"verdict\": 0}]} with exactly one entry per context, in order.\n\nGROUND TRUTH: ");
    push_str(&mut out, ground_truth);
    push_str(&mut out, "\n\nCONTEXTS:\n");
    let contexts_text = numbered_list(contexts);
    push_str(&mut out, contexts_text.as_str());
    assert(out@ =~= noise_context_relevance_prompt_text(ground_truth@, strings_view(contexts@)));
    out
}

/// The prompt that asks a judge for the user goal and the end state of a workflow transcript.
pub open spec fn goal_inference_prompt_text(transcript: Seq<char>) -> Seq<char> {
    "Given an agentic workflow comprised of Human, AI and Tools, identify the user_goal (the task or objective the user wants to achieve) and the end_state (the final outcome or result of the workflow). Return only JSON of the form {\"user_goal\": \"...\", \"end_state\": \"...\"}.\n\nWORKFLOW:\n"@
        + transcript
}

/// The prompt that asks a judge for the user goal and the end state of a workflow transcript.
pub fn goal_inference_prompt(transcript: &str) -> (out: String)
    ensures
        out@ == goal_inference_prompt_text(transcript@),
{
    let mut out = String::new();
    push_str(&mut out, "Given an agentic workflow comprised of Human, AI and Tools, identify the user_goal (the task or objective the user wants to achieve) and the end_state (the final outcome or result of the workflow). Return only JSON of the form {\"user_goal\": \"...\", \"end_state\": \"...\"}.\n\nWORKFLOW:\n");
    push_str(&mut out, transcript);
    assert(out@ =~= goal_inference_prompt_text(transcript@));
    out
}

/// The prompt that asks a judge whether a desired and an achieved outcome are the same.
pub open spec fn outcome_comparison_prompt_text(desired: Seq<char>, achieved: Seq<char>) -> Seq<char> {
    "Given a desired outcome and an achieved outcome, compare them and identify if they are the same (1) or different (0). Return only JSON of the form {\"reason\": \"...\", \"verdict\": \"0\"}.\n\nDESIRED OUTCOME: "@
        + desired
        + "\nACHIEVED OUTCOME: "@
        + achieved
}

/// The prompt that asks a judge whether a desired and an achieved outcome are the same.
pub fn outcome_comparison_prompt(desired: &str, achieved: &str) -> (out: String)
    ensures
        out@ == outcome_comparison_prompt_text(desired@, achieved@),
{
    let mut out = String::new();
    push_str(&mut out, "Given a desired outcome and an achieved outcome, compare them and identify if they are the same (1) or different (0). Return only JSON of the form {\"reason\": \"...\", \"verdict\": \"0\"}.\n\nDESIRED OUTCOME: ");
    push_str(&mut out, desired);
    push_str(&mut out, "\nACHIEVED OUTCOME: ");
    push_str(&mut out, achieved);
    assert(out@ =~= outcome_comparison_prompt_text(desired@, achieved@));
    out
}

/// The prompt that asks a judge for the topics raised in a conversation.
pub open spec fn topic_extraction_prompt_text(transcript: Seq<char>) -> Seq<char> {
    "Given an interaction between Human, Tool and AI, extract the distinct topics raised in the Human's inputs. Return only JSON of the form {\"topics\": [\"...\"]}.\n\nCONVERSATION:\n"@
        + transcript
}

/// The prompt that asks a judge for the topics raised in a conversation.
pub fn topic_extraction_prompt(transcript: &str) -> (out: String)
    ensures
        out@ == topic_extraction_prompt_text(transcript@),
{
    let mut out = String::new();
    push_str(&mut out, "Given an interaction between Human, Tool and AI, extract the distinct topics raised in the Human's inputs. Return only JSON of the form {\"topics\": [\"...\"]}.\n\nCONVERSATION:\n");
    push_str(&mut out, transcript);
    assert(out@ =~= topic_extraction_prompt_text(transcript@));
    out
}

/// The prompt that asks a judge whether the AI refused to answer about a topic.
pub open spec fn topic_refusal_prompt_text(transcript: Seq<char>, topic: Seq<char>) -> Seq<char> {
    "Given a topic, classify whether the AI refused to answer the question about the topic. Return only JSON of the form {\"refused_to_answer\": false}.\n\nCONVERSATION:\n"@
        + transcript
        + "\n\nTOPIC: "@
        + topic
}

/// The prompt that asks a judge whether the AI refused to answer about a topic.
pub fn topic_refusal_prompt(transcript: &str, topic: &str) -> (out: String)
    ensures
        out@ == topic_refusal_prompt_text(transcript@, topic@),
{
    let mut out = String::new();
    push_str(&mut out, "Given a topic, classify whether the AI refused to answer the question about the topic. Return only JSON of the form {\"refused_to_answer\": false}.\n\nCONVERSATION:\n");
    push_str(&mut out, transcript);
    push_str(&mut out, "\n\nTOPIC: ");
    push_str(&mut out, topic);
    assert(out@ =~= topic_refusal_prompt_text(transcript@, topic@));
    out
}

/// The prompt that asks a judge whether each numbered topic falls under one of the reference topics.
pub open spec fn topic_classification_prompt_text(reference_topics: Seq<Seq<char>>, topics: Seq<Seq<char>>) -> Seq<char> {
    "Given a set of reference topics, classify whether each of the given topics falls into any of the reference topics. Return only JSON of the form {\"classifications\": [true, false]} with exactly one boolean per topic, in the same order.\n\nREFERENCE TOPICS:\n"@
        + join_lines(reference_topics)
        + "\n\nTOPICS:\n"@
        + join_lines(numbered_lines(topics))
}

/// The prompt that asks a judge whether each numbered topic falls under one of the reference topics.
pub fn topic_classification_prompt(reference_topics: &Vec<String>, topics: &Vec<String>) -> (out: String)
    ensures
        out@ == topic_classification_prompt_text(strings_view(reference_topics@), strings_view(topics@)),
{
    let mut out = String::new();
    push_str(&mut out, "Given a set of reference topics, classify whether each of the given topics falls into any of the reference topics. Return only JSON of the form {\"classifications\": [true, false]} with exactly one boolean per topic, in the same order.\n\nREFERENCE TOPICS:\n");
    let reference_topics_text = join_with_newlines(reference_topics);
    push_str(&mut out, reference_topics_text.as_str());
    push_str(&mut out, "\n\nTOPICS:\n");
    let topics_text = numbered_list(topics);
    push_str(&mut out, topics_text.as_str());
    assert(out@ =~= topic_classification_prompt_text(strings_view(reference_topics@), strings_view(topics@)));
    out
}


/// The decimal representation of an integer, with a leading `-` when it is negative.
pub open spec fn signed_decimal(i: int) -> Seq<char> {
    if i < 0 {
        "-"@ + decimal((-i) as nat)
    } else {
        decimal(i as nat)
    }
}

/// Appends the decimal representation of a signed integer (what `format!("{i}")` prints).
pub fn push_signed_decimal(out: &mut String, i: i64)
    ensures
        final(out)@ == old(out)@ + signed_decimal(i as int),
{
    let wide: i128 = i as i128;
    if wide < 0 {
        push_str(out, "-");
        push_decimal_wide(out, (-wide) as u128);
    } else {
        push_decimal_wide(out, wide as u128);
    }
    assert(final(out)@ =~= old(out)@ + signed_decimal(i as int));
}

/// One line of a rubric: `score <score>: <description>`.
pub open spec fn rubric_line(score: i64, description: Seq<char>) -> Seq<char> {
    "score "@ + signed_decimal(score as int) + ": "@ + description
}

/// The contents of a rubric.
pub open spec fn rubric_view(rubric: Seq<(i64, String)>) -> Seq<(i64, Seq<char>)> {
    rubric.map_values(|p: (i64, String)| (p.0, p.1@))
}

/// The lines of a rubric, in order.
pub open spec fn rubric_lines(rubric: Seq<(i64, Seq<char>)>) -> Seq<Seq<char>> {
    Seq::new(rubric.len(), |i: int| rubric_line(rubric[i].0, rubric[i].1))
}

/// A rubric as the judge prompts present it, one `score <score>: <description>` per line.
pub fn rubric_text(rubric: &Vec<(i64, String)>) -> (out: String)
    ensures
        out@ == join_lines(rubric_lines(rubric_view(rubric@))),
{
    let ghost target = rubric_lines(rubric_view(rubric@));
    let mut lines: Vec<String> = Vec::new();
    let mut i: usize = 0;
    while i < rubric.len()
        invariant
            i <= rubric@.len(),
            target == rubric_lines(rubric_view(rubric@)),
            strings_view(lines@) == target.take(i as int),
        decreases rubric@.len() - i,
    {
        let mut line = String::new();
        push_str(&mut line, "score ");
        push_signed_decimal(&mut line, rubric[i].0);
        push_str(&mut line, ": ");
        push_str(&mut line, rubric[i].1.as_str());
        let ghost before = strings_view(lines@);
        lines.push(line);
        assert(strings_view(lines@) =~= before.push(line@));
        assert(target.take(i + 1) =~= target.take(i as int).push(target[i as int]));
        i = i + 1;
    }
    assert(target.take(rubric@.len() as int) =~= target);
    join_with_newlines(&lines)
}

/// The schema shown to the SQL judge: the retrieved contexts one per line, or a note that
/// none was provided.
pub open spec fn sql_schema_text(contexts: Seq<Seq<char>>) -> Seq<char> {
    if contexts.len() == 0 {
        "(no schema provided)"@
    } else {
        join_lines(contexts)
    }
}

/// The database schema for the SQL judge.
pub fn sql_schema(contexts: &Vec<String>) -> (out: String)
    ensures
        out@ == sql_schema_text(strings_view(contexts@)),
{
    if contexts.len() == 0 {
        let mut out = String::new();
        push_str(&mut out, "(no schema provided)");
        assert(out@ =~= "(no schema provided)"@);
        out
    } else {
        join_with_newlines(contexts)
    }
}

/// What `str::to_lowercase` returns for a text: its Unicode lower-case mapping.
pub uninterp spec fn unicode_lowercase(s: Seq<char>) -> Seq<char>;

/// `str::to_lowercase`: the Unicode lower-case mapping of a text, which depends on the text
/// alone. Nothing more of the mapping is stated here.
#[verifier::external_body]
fn lowercase_text(s: &str) -> (out: String)
    ensures
        out@ == unicode_lowercase(s@),
{
    s.to_lowercase()
}

/// Pieces joined by single spaces.
pub open spec fn join_spaced(ls: Seq<Seq<char>>) -> Seq<char>
    decreases ls.len(),
{
    if ls.len() == 0 {
        Seq::empty()
    } else if ls.len() == 1 {
        ls[0]
    } else {
        join_spaced(ls.drop_last()) + " "@ + ls.last()
    }
}

/// The SQL normal form of a lower-cased query: its words joined by single spaces, trimmed,
/// without trailing semicolons, trimmed again.
pub open spec fn sql_normal_form(lowered: Seq<char>) -> Seq<char> {
    trim(strip_end(trim(join_spaced(words(lowered))), CharClass::Semicolon))
}

/// The normal form of an already lower-cased SQL query.
pub fn normalize_lowered_sql(lowered: &str) -> (out: String)
    ensures
        out@ == sql_normal_form(lowered@),
{
    let cs = chars_of(lowered);
    let ws = split_pieces(&cs, CharClass::Whitespace);
    let ghost wv = ws@.map_values(|v: Vec<char>| v@);
    let mut joined: Vec<char> = Vec::new();
    let mut k: usize = 0;
    while k < ws.len()
        invariant
            k <= ws@.len(),
            wv == ws@.map_values(|v: Vec<char>| v@),
            joined@ == join_spaced(wv.take(k as int)),
        decreases ws@.len() - k,
    {
        assert(wv.take(k + 1).drop_last() =~= wv.take(k as int));
        assert(wv.take(k + 1).last() == ws@[k as int]@);
        let ghost before = joined@;
        if k > 0 {
            joined.push(' ');
        } else {
            assert(joined@ =~= Seq::<char>::empty());
        }
        let w = &ws[k];
        let mut j: usize = 0;
        let ghost mid = joined@;
        while j < w.len()
            invariant
                j <= w@.len(),
                joined@ == mid + w@.take(j as int),
            decreases w@.len() - j,
        {
            joined.push(w[j]);
            assert(w@.take(j + 1) =~= w@.take(j as int).push(w@[j as int]));
            j = j + 1;
        }
        assert(w@.take(w@.len() as int) =~= w@);
        proof {
            reveal_strlit(" ");
            if k > 0 {
                assert(joined@ =~= before + " "@ + ws@[k as int]@);
            } else {
                assert(joined@ =~= ws@[k as int]@);
            }
        }
        k = k + 1;
    }
    assert(wv.take(ws@.len() as int) =~= wv);
    let t1 = trim_chars(&joined, CharClass::Whitespace);
    let t2 = strip_end_chars(&t1, CharClass::Semicolon);
    let t3 = trim_chars(&t2, CharClass::Whitespace);
    string_of(&t3)
}

/// The normal form of a SQL query for the exact-match check: lower-cased (Unicode), words
/// joined by single spaces, trailing semicolons dropped.
pub fn normalize_sql(sql: &str) -> (out: String)
    ensures
        out@ == sql_normal_form(unicode_lowercase(sql@)),
{
    let lowered = lowercase_text(sql);
    normalize_lowered_sql(lowered.as_str())
}

/// Whether two SQL queries have the same normal form, in which case the SQL judge is not asked.
pub fn sql_normalized_match(actual: &str, expected: &str) -> (r: bool)
    ensures
        r == (sql_normal_form(unicode_lowercase(actual@)) == sql_normal_form(
            unicode_lowercase(expected@),
        )),
{
    let a = normalize_sql(actual);
    let b = normalize_sql(expected);
    str_equal(a.as_str(), b.as_str())
}

/// The number of judge calls of an aspect critic: the configured strictness, at least one.
pub fn aspect_critic_strictness(strictness: usize) -> (r: usize)
    ensures
        r == if strictness < 1 { 1 } else { strictness },
{
    if strictness < 1 {
        1
    } else {
        strictness
    }
}

/// Whether the positive verdicts are a strict majority of the judge calls (a tie is no).
pub fn majority_positive(positive: usize, calls: usize) -> (r: bool)
    ensures
        r == (2 * positive > calls),
{
    positive > calls / 2
}

/// A judge rating held to the scale 0 to 4.
pub fn clamp_rating(rating: i64) -> (r: i64)
    ensures
        r == if rating < 0 {
            0
        } else if rating > 4 {
            4
        } else {
            rating
        },
{
    if rating < 0 {
        0
    } else if rating > 4 {
        4
    } else {
        rating
    }
}


/// The name under which a noise-sensitivity metric reports.
pub fn noise_sensitivity_name(mode: NoiseSensitivityMode) -> (r: &'static str)
    ensures
        r@ == match mode {
            NoiseSensitivityMode::Relevant => "noise_sensitivity_relevant"@,
            NoiseSensitivityMode::Irrelevant => "noise_sensitivity_irrelevant"@,
        },
{
    match mode {
        NoiseSensitivityMode::Relevant => "noise_sensitivity_relevant",
        NoiseSensitivityMode::Irrelevant => "noise_sensitivity_irrelevant",
    }
}

/// Whether the judge found the ground truth attributable to context `i`; a missing verdict
/// counts as no.
pub open spec fn relevant_at(relevance: Seq<i64>, i: int) -> bool {
    0 <= i < relevance.len() && relevance[i] == 1
}

/// Whether context `i` belongs to the subset that a mode attributes incorrect claims to.
pub open spec fn in_target(relevance: Seq<i64>, i: int, mode: NoiseSensitivityMode) -> bool {
    match mode {
        NoiseSensitivityMode::Relevant => relevant_at(relevance, i),
        NoiseSensitivityMode::Irrelevant => !relevant_at(relevance, i),
    }
}

/// The contexts of the target subset, in retrieval order.
pub open spec fn target_contexts(
    contexts: Seq<Seq<char>>,
    relevance: Seq<i64>,
    mode: NoiseSensitivityMode,
) -> Seq<Seq<char>>
    decreases contexts.len(),
{
    if contexts.len() == 0 {
        Seq::empty()
    } else {
        let rest = target_contexts(contexts.drop_last(), relevance, mode);
        if in_target(relevance, contexts.len() - 1, mode) {
            rest.push(contexts.last())
        } else {
            rest
        }
    }
}

/// The retrieved contexts that a noise-sensitivity metric attributes incorrect claims to: in
/// `Relevant` mode those the ground truth can be attributed to, in `Irrelevant` mode the others.
pub fn noise_target_contexts(
    contexts: &Vec<String>,
    relevance: &Vec<i64>,
    mode: NoiseSensitivityMode,
) -> (out: Vec<String>)
    ensures
        strings_view(out@) == target_contexts(strings_view(contexts@), relevance@, mode),
{
    let ghost cv = strings_view(contexts@);
    let mut out: Vec<String> = Vec::new();
    let mut i: usize = 0;
    while i < contexts.len()
        invariant
            i <= contexts@.len(),
            cv == strings_view(contexts@),
            strings_view(out@) == target_contexts(cv.take(i as int), relevance@, mode),
        decreases contexts@.len() - i,
    {
        assert(cv.take(i + 1).drop_last() =~= cv.take(i as int));
        let relevant = i < relevance.len() && relevance[i] == 1;
        let keep = match mode {
            NoiseSensitivityMode::Relevant => relevant,
            NoiseSensitivityMode::Irrelevant => !relevant,
        };
        let ghost before = strings_view(out@);
        if keep {
            out.push(contexts[i].clone());
            assert(strings_view(out@) =~= before.push(cv[i as int]));
        }
        i = i + 1;
    }
    assert(cv.take(contexts@.len() as int) =~= cv);
    out
}

/// Whether claim `i` is noise: judged not attributable to the ground truth (a missing verdict
/// counts as not attributable) and judged grounded in the target contexts (a missing verdict
/// counts as not grounded).
pub open spec fn noisy_at(correctness: Seq<i64>, grounded: Seq<i64>, i: int) -> bool {
    &&& !(0 <= i < correctness.len() && correctness[i] != 0)
    &&& 0 <= i < grounded.len() && grounded[i] == 1
}

/// How many of the first `n` claims are noise.
pub open spec fn noisy_count(n: nat, correctness: Seq<i64>, grounded: Seq<i64>) -> nat
    decreases n,
{
    if n == 0 {
        0
    } else {
        noisy_count((n - 1) as nat, correctness, grounded) + if noisy_at(
            correctness,
            grounded,
            n - 1,
        ) {
            1nat
        } else {
            0nat
        }
    }
}

/// How many of `total` claims are incorrect yet grounded in the target contexts.
pub fn noisy_claims(total: usize, correctness: &Vec<i64>, grounded: &Vec<i64>) -> (n: usize)
    ensures
        n == noisy_count(total as nat, correctness@, grounded@),
        n <= total,
{
    let mut n: usize = 0;
    let mut i: usize = 0;
    while i < total
        invariant
            i <= total,
            n <= i,
            n == noisy_count(i as nat, correctness@, grounded@),
        decreases total - i,
    {
        let incorrect = !(i < correctness.len() && correctness[i] != 0);
        let is_grounded = i < grounded.len() && grounded[i] == 1;
        if incorrect && is_grounded {
            n = n + 1;
        }
        i = i + 1;
    }
    n
}

/// The word a noise-sensitivity reason uses for its target subset.
pub fn noise_target_label(mode: NoiseSensitivityMode) -> (r: &'static str)
    ensures
        r@ == match mode {
            NoiseSensitivityMode::Relevant => "relevant"@,
            NoiseSensitivityMode::Irrelevant => "irrelevant"@,
        },
{
    match mode {
        NoiseSensitivityMode::Relevant => "relevant",
        NoiseSensitivityMode::Irrelevant => "irrelevant",
    }
}

/// The in-scope classifications brought to one per topic: missing ones are `false`, extra
/// ones are dropped.
pub open spec fn resized(classified: Seq<bool>, n: nat) -> Seq<bool> {
    Seq::new(n, |i: int| i < classified.len() && classified[i])
}

/// One in-scope classification per topic (`Vec::resize` with `false`).
pub fn resize_classifications(classified: &Vec<bool>, n: usize) -> (out: Vec<bool>)
    ensures
        out@ == resized(classified@, n as nat),
{
    let mut out: Vec<bool> = Vec::new();
    let mut i: usize = 0;
    while i < n
        invariant
            i <= n,
            out@ == resized(classified@, n as nat).take(i as int),
        decreases n - i,
    {
        let v = i < classified.len() && classified[i];
        out.push(v);
        assert(resized(classified@, n as nat).take(i + 1) =~= resized(classified@, n as nat).take(
            i as int,
        ).push(v));
        i = i + 1;
    }
    assert(resized(classified@, n as nat).take(n as int) =~= resized(classified@, n as nat));
    out
}

/// How many of the first `n` topic pairs are (answered, in scope) equal to `(a, s)`.
pub open spec fn pair_count(answered: Seq<bool>, in_scope: Seq<bool>, n: nat, a: bool, s: bool) -> nat
    decreases n,
{
    if n == 0 {
        0
    } else {
        pair_count(answered, in_scope, (n - 1) as nat, a, s) + if answered[n - 1] == a
            && in_scope[n - 1] == s {
            1nat
        } else {
            0nat
        }
    }
}

proof fn lemma_pair_count_bound(answered: Seq<bool>, in_scope: Seq<bool>, n: nat, a: bool, s: bool)
    ensures
        pair_count(answered, in_scope, n, a, s) <= n,
    decreases n,
{
    if n > 0 {
        lemma_pair_count_bound(answered, in_scope, (n - 1) as nat, a, s);
    }
}

/// The topic confusion counts over the pairs of the two lists (as far as the shorter goes):
/// true positives (answered, in scope), false positives (answered, out of scope) and false
/// negatives (refused, in scope).
pub fn topic_confusion(answered: &Vec<bool>, in_scope: &Vec<bool>) -> (r: (usize, usize, usize))
    ensures
        ({
            let n = if answered@.len() <= in_scope@.len() {
                answered@.len()
            } else {
                in_scope@.len()
            };
            &&& r.0 == pair_count(answered@, in_scope@, n, true, true)
            &&& r.1 == pair_count(answered@, in_scope@, n, true, false)
            &&& r.2 == pair_count(answered@, in_scope@, n, false, true)
        }),
{
    let n: usize = if answered.len() <= in_scope.len() {
        answered.len()
    } else {
        in_scope.len()
    };
    let mut tp: usize = 0;
    let mut fp: usize = 0;
    let mut fneg: usize = 0;
    let mut i: usize = 0;
    while i < n
        invariant
            i <= n,
            n <= answered@.len(),
            n <= in_scope@.len(),
            tp == pair_count(answered@, in_scope@, i as nat, true, true),
            fp == pair_count(answered@, in_scope@, i as nat, true, false),
            fneg == pair_count(answered@, in_scope@, i as nat, false, true),
        decreases n - i,
    {
        proof {
            lemma_pair_count_bound(answered@, in_scope@, i as nat, true, true);
            lemma_pair_count_bound(answered@, in_scope@, i as nat, true, false);
            lemma_pair_count_bound(answered@, in_scope@, i as nat, false, true);
        }
        let a = answered[i];
        let s = in_scope[i];
        if a && s {
            tp = tp + 1;
        } else if a && !s {
            fp = fp + 1;
        } else if !a && s {
            fneg = fneg + 1;
        }
        i = i + 1;
    }
    (tp, fp, fneg)
}


/// A JSON value of a judge reply, as far as the verdict rules read it.
#[derive(Clone, Debug)]
pub enum JudgeValue {
    Bool(bool),
    /// A number, with whether it differs from zero.
    Number(bool),
    Text(String),
    /// `null`, an array or an object.
    Other,
}

/// A text verdict as the rules compare it: trimmed and ASCII-lower-cased.
pub open spec fn verdict_word(s: Seq<char>) -> Seq<char> {
    lower_seq(trim(s))
}

/// The boolean that a judge value stands for: a boolean itself, a number that is not zero, or
/// one of the words `true`, `1`, `yes`; anything else is `false`.
pub open spec fn coerced(v: JudgeValue) -> bool {
    match v {
        JudgeValue::Bool(b) => b,
        JudgeValue::Number(nonzero) => nonzero,
        JudgeValue::Text(s) => {
            let w = verdict_word(s@);
            w == "true"@ || w == "1"@ || w == "yes"@
        },
        JudgeValue::Other => false,
    }
}

fn verdict_word_of(s: &str) -> (out: String)
    ensures
        out@ == verdict_word(s@),
{
    let cs = chars_of(s);
    let t = trim_chars(&cs, CharClass::Whitespace);
    let l = lowercase_chars(&t);
    string_of(&l)
}

/// The boolean that a judge value stands for, the way the topic-adherence judges are read.
pub fn coerce_bool(value: &JudgeValue) -> (r: bool)
    ensures
        r == coerced(*value),
{
    match value {
        JudgeValue::Bool(b) => *b,
        JudgeValue::Number(nonzero) => *nonzero,
        JudgeValue::Text(s) => {
            let w = verdict_word_of(s.as_str());
            str_equal(w.as_str(), "true") || str_equal(w.as_str(), "1") || str_equal(
                w.as_str(),
                "yes",
            )
        },
        JudgeValue::Other => false,
    }
}

/// The binary verdict that a judge value stands for, if it stands for one: a boolean, a number
/// (yes when it is not zero), or one of the words `1`, `true`, `yes` or `0`, `false`, `no`.
pub open spec fn binary_verdict(v: JudgeValue) -> Option<bool> {
    match v {
        JudgeValue::Bool(b) => Some(b),
        JudgeValue::Number(nonzero) => Some(nonzero),
        JudgeValue::Text(s) => {
            let w = verdict_word(s@);
            if w == "1"@ || w == "true"@ || w == "yes"@ {
                Some(true)
            } else if w == "0"@ || w == "false"@ || w == "no"@ {
                Some(false)
            } else {
                None
            }
        },
        JudgeValue::Other => None,
    }
}

/// The message of the error for a verdict that is neither yes nor no; `rendered` is the JSON
/// text of the value.
pub open spec fn unexpected_verdict_message(rendered: Seq<char>) -> Seq<char> {
    "agent_goal_accuracy: unexpected verdict "@ + rendered
}

/// The binary verdict of a goal-accuracy judge, or a parse error for any other value;
/// `rendered` is the JSON text of the value, for the message.
pub fn parse_binary_verdict(value: &JudgeValue, rendered: &str) -> (r: Result<bool, RagasError>)
    ensures
        match binary_verdict(*value) {
            Some(b) => r == Ok::<bool, RagasError>(b),
            None => r matches Err(RagasError::Parse { message }) && message@
                == unexpected_verdict_message(rendered@),
        },
{
    let verdict: Option<bool> = match value {
        JudgeValue::Bool(b) => Some(*b),
        JudgeValue::Number(nonzero) => Some(*nonzero),
        JudgeValue::Text(s) => {
            let w = verdict_word_of(s.as_str());
            if str_equal(w.as_str(), "1") || str_equal(w.as_str(), "true") || str_equal(
                w.as_str(),
                "yes",
            ) {
                Some(true)
            } else if str_equal(w.as_str(), "0") || str_equal(w.as_str(), "false") || str_equal(
                w.as_str(),
                "no",
            ) {
                Some(false)
            } else {
                None
            }
        },
        JudgeValue::Other => None,
    };
    match verdict {
        Some(b) => Ok(b),
        None => {
            let mut message = String::new();
            push_str(&mut message, "agent_goal_accuracy: unexpected verdict ");
            push_str(&mut message, rendered);
            Err(RagasError::Parse { message })
        },
    }
}

/// The key under which an extracted entity is compared: trimmed, then lower-cased (Unicode).
pub open spec fn entity_key(raw: Seq<char>) -> Seq<char> {
    unicode_lowercase(trim(raw))
}

/// Whether `e` is the non-empty key of one of the raw entities.
pub open spec fn is_entity_of(raw: Seq<Seq<char>>, e: Seq<char>) -> bool {
    e.len() > 0 && exists|i: int| 0 <= i < raw.len() && entity_key(raw[i]) == e
}

fn contains_string(v: &Vec<String>, x: &str) -> (r: bool)
    ensures
        r == strings_view(v@).contains(x@),
{
    let mut i: usize = 0;
    while i < v.len()
        invariant
            i <= v@.len(),
            forall|j: int| 0 <= j < i ==> v@[j]@ != x@,
        decreases v@.len() - i,
    {
        if str_equal(v[i].as_str(), x) {
            assert(strings_view(v@)[i as int] == x@);
            return true;
        }
        i = i + 1;
    }
    proof {
        if strings_view(v@).contains(x@) {
            let j = choose|j: int| 0 <= j < strings_view(v@).len() && strings_view(v@)[j] == x@;
            assert(v@[j]@ == x@);
        }
    }
    false
}

/// The set of entities a judge extracted, as the entity-recall metric compares them: each
/// trimmed and lower-cased, empty ones dropped, each once.
pub fn entity_set(raw: &Vec<String>) -> (out: Vec<String>)
    ensures
        strings_view(out@).no_duplicates(),
        forall|e: Seq<char>|
            #![trigger strings_view(out@).contains(e)]
            strings_view(out@).contains(e) <==> is_entity_of(strings_view(raw@), e),
{
    let ghost rv = strings_view(raw@);
    let mut out: Vec<String> = Vec::new();
    let mut k: usize = 0;
    while k < raw.len()
        invariant
            k <= raw@.len(),
            rv == strings_view(raw@),
            strings_view(out@).no_duplicates(),
            forall|e: Seq<char>|
                #![trigger strings_view(out@).contains(e)]
                strings_view(out@).contains(e) <==> (e.len() > 0 && exists|i: int|
                    0 <= i < k && entity_key(rv[i]) == e),
        decreases raw@.len() - k,
    {
        let t = trim_str(raw[k].as_str());
        let key = lowercase_text(t.as_str());
        assert(key@ == entity_key(rv[k as int]));
        let ghost before = strings_view(out@);
        if !str_is_empty(key.as_str()) && !contains_string(&out, key.as_str()) {
            out.push(key);
            assert(strings_view(out@) =~= before.push(entity_key(rv[k as int])));
        }
        assert forall|e: Seq<char>|
            #![trigger strings_view(out@).contains(e)]
            strings_view(out@).contains(e) <==> (e.len() > 0 && exists|i: int|
                0 <= i < k + 1 && entity_key(rv[i]) == e) by {
            if e.len() > 0 && exists|i: int| 0 <= i < k + 1 && entity_key(rv[i]) == e {
                let i = choose|i: int| 0 <= i < k + 1 && entity_key(rv[i]) == e;
                if i < k {
                    assert(before.contains(e));
                    let j = choose|j: int| 0 <= j < before.len() && before[j] == e;
                    assert(strings_view(out@)[j] == e);
                } else {
                    if !before.contains(e) {
                        assert(strings_view(out@)[before.len() as int] == e);
                    } else {
                        let j = choose|j: int| 0 <= j < before.len() && before[j] == e;
                        assert(strings_view(out@)[j] == e);
                    }
                }
            }
            if strings_view(out@).contains(e) {
                let j = choose|j: int|
                    0 <= j < strings_view(out@).len() && strings_view(out@)[j] == e;
                if j < before.len() {
                    assert(before[j] == e);
                    assert(before.contains(e));
                }
            }
        }
        k = k + 1;
    }
    out
}

/// How many items of `items` occur in `pool`.
pub open spec fn count_in(items: Seq<Seq<char>>, pool: Seq<Seq<char>>) -> nat
    decreases items.len(),
{
    if items.len() == 0 {
        0
    } else {
        count_in(items.drop_last(), pool) + if pool.contains(items.last()) {
            1nat
        } else {
            0nat
        }
    }
}

proof fn lemma_count_in_bound(items: Seq<Seq<char>>, pool: Seq<Seq<char>>)
    ensures
        count_in(items, pool) <= items.len(),
    decreases items.len(),
{
    if items.len() > 0 {
        lemma_count_in_bound(items.drop_last(), pool);
    }
}

/// How many reference entities also occur among the context entities.
pub fn recalled_entities(reference: &Vec<String>, contexts: &Vec<String>) -> (n: usize)
    ensures
        n == count_in(strings_view(reference@), strings_view(contexts@)),
        n <= reference@.len(),
{
    let ghost rv = strings_view(reference@);
    let mut n: usize = 0;
    let mut i: usize = 0;
    while i < reference.len()
        invariant
            i <= reference@.len(),
            rv == strings_view(reference@),
            n == count_in(rv.take(i as int), strings_view(contexts@)),
            n <= i,
        decreases reference@.len() - i,
    {
        assert(rv.take(i + 1).drop_last() =~= rv.take(i as int));
        assert(rv.take(i + 1).last() == reference@[i as int]@);
        if contains_string(contexts, reference[i].as_str()) {
            n = n + 1;
        }
        i = i + 1;
    }
    assert(rv.take(reference@.len() as int) =~= rv);
    n
}
/// The reason of a faithfulness score.
pub open spec fn faithfulness_reason_text(supported: nat, total: nat) -> Seq<char> {
    decimal(supported) + "/"@ + decimal(total) + " statements supported by the retrieved contexts"@
}

/// The reason of a faithfulness score.
pub fn faithfulness_reason(supported: usize, total: usize) -> (out: String)
    ensures
        out@ == faithfulness_reason_text(supported as nat, total as nat),
{
    let mut out = String::new();
    push_decimal(&mut out, supported);
    push_str(&mut out, "/");
    push_decimal(&mut out, total);
    push_str(&mut out, " statements supported by the retrieved contexts");
    assert(out@ =~= faithfulness_reason_text(supported as nat, total as nat));
    out
}

/// The reason of an average-precision score over judged contexts (context precision and context utilization).
pub open spec fn context_precision_reason_text(useful: nat, total: nat) -> Seq<char> {
    "average precision@k over "@ + decimal(useful) + "/"@ + decimal(total) + " useful context(s)"@
}

/// The reason of an average-precision score over judged contexts (context precision and context utilization).
pub fn context_precision_reason(useful: usize, total: usize) -> (out: String)
    ensures
        out@ == context_precision_reason_text(useful as nat, total as nat),
{
    let mut out = String::new();
    push_str(&mut out, "average precision@k over ");
    push_decimal(&mut out, useful);
    push_str(&mut out, "/");
    push_decimal(&mut out, total);
    push_str(&mut out, " useful context(s)");
    assert(out@ =~= context_precision_reason_text(useful as nat, total as nat));
    out
}

/// The reason of a context-recall score.
pub open spec fn context_recall_reason_text(attributed: nat, total: nat) -> Seq<char> {
    decimal(attributed) + "/"@ + decimal(total) + " reference sentence(s) attributable to the retrieved contexts"@
}

/// The reason of a context-recall score.
pub fn context_recall_reason(attributed: usize, total: usize) -> (out: String)
    ensures
        out@ == context_recall_reason_text(attributed as nat, total as nat),
{
    let mut out = String::new();
    push_decimal(&mut out, attributed);
    push_str(&mut out, "/");
    push_decimal(&mut out, total);
    push_str(&mut out, " reference sentence(s) attributable to the retrieved contexts");
    assert(out@ =~= context_recall_reason_text(attributed as nat, total as nat));
    out
}

/// The reason of a response-relevancy score.
pub open spec fn response_relevancy_reason_text(total: nat) -> Seq<char> {
    "mean cosine similarity between user_input and "@ + decimal(total) + " generated question(s)"@
}

/// The reason of a response-relevancy score.
pub fn response_relevancy_reason(total: usize) -> (out: String)
    ensures
        out@ == response_relevancy_reason_text(total as nat),
{
    let mut out = String::new();
    push_str(&mut out, "mean cosine similarity between user_input and ");
    push_decimal(&mut out, total);
    push_str(&mut out, " generated question(s)");
    assert(out@ =~= response_relevancy_reason_text(total as nat));
    out
}

/// The reason of an aspect-critic verdict.
pub open spec fn aspect_critic_reason_text(positive: nat, calls: nat) -> Seq<char> {
    decimal(positive) + "/"@ + decimal(calls) + " judge call(s) returned a positive verdict"@
}

/// The reason of an aspect-critic verdict.
pub fn aspect_critic_reason(positive: usize, calls: usize) -> (out: String)
    ensures
        out@ == aspect_critic_reason_text(positive as nat, calls as nat),
{
    let mut out = String::new();
    push_decimal(&mut out, positive);
    push_str(&mut out, "/");
    push_decimal(&mut out, calls);
    push_str(&mut out, " judge call(s) returned a positive verdict");
    assert(out@ =~= aspect_critic_reason_text(positive as nat, calls as nat));
    out
}

/// The reason of a factual-correctness score.
pub open spec fn factual_reason_text(tp: nat, fp: nat, fneg: nat) -> Seq<char> {
    "factual F1 from TP="@ + decimal(tp) + " FP="@ + decimal(fp) + " FN="@ + decimal(fneg)
}

/// The reason of a factual-correctness score.
pub fn factual_reason(tp: usize, fp: usize, fneg: usize) -> (out: String)
    ensures
        out@ == factual_reason_text(tp as nat, fp as nat, fneg as nat),
{
    let mut out = String::new();
    push_str(&mut out, "factual F1 from TP=");
    push_decimal(&mut out, tp);
    push_str(&mut out, " FP=");
    push_decimal(&mut out, fp);
    push_str(&mut out, " FN=");
    push_decimal(&mut out, fneg);
    assert(out@ =~= factual_reason_text(tp as nat, fp as nat, fneg as nat));
    out
}

/// The reason of a context-entity-recall score.
pub open spec fn entity_recall_reason_text(recalled: nat, total: nat) -> Seq<char> {
    decimal(recalled) + "/"@ + decimal(total) + " reference entities present in contexts"@
}

/// The reason of a context-entity-recall score.
pub fn entity_recall_reason(recalled: usize, total: usize) -> (out: String)
    ensures
        out@ == entity_recall_reason_text(recalled as nat, total as nat),
{
    let mut out = String::new();
    push_decimal(&mut out, recalled);
    push_str(&mut out, "/");
    push_decimal(&mut out, total);
    push_str(&mut out, " reference entities present in contexts");
    assert(out@ =~= entity_recall_reason_text(recalled as nat, total as nat));
    out
}

/// The reason of a summarization score.
pub open spec fn summarization_reason_text(covered: nat, total: nat) -> Seq<char> {
    decimal(covered) + "/"@ + decimal(total) + " source questions answerable from the summary"@
}

/// The reason of a summarization score.
pub fn summarization_reason(covered: usize, total: usize) -> (out: String)
    ensures
        out@ == summarization_reason_text(covered as nat, total as nat),
{
    let mut out = String::new();
    push_decimal(&mut out, covered);
    push_str(&mut out, "/");
    push_decimal(&mut out, total);
    push_str(&mut out, " source questions answerable from the summary");
    assert(out@ =~= summarization_reason_text(covered as nat, total as nat));
    out
}

/// The reason of a noise-sensitivity score.
pub open spec fn noise_reason_text(noisy: nat, total: nat) -> Seq<char> {
    decimal(noisy) + "/"@ + decimal(total) + " response claims are incorrect yet grounded in the target contexts"@
}

/// The reason of a noise-sensitivity score.
pub fn noise_reason(noisy: usize, total: usize) -> (out: String)
    ensures
        out@ == noise_reason_text(noisy as nat, total as nat),
{
    let mut out = String::new();
    push_decimal(&mut out, noisy);
    push_str(&mut out, "/");
    push_decimal(&mut out, total);
    push_str(&mut out, " response claims are incorrect yet grounded in the target contexts");
    assert(out@ =~= noise_reason_text(noisy as nat, total as nat));
    out
}

/// The reason of a topic-adherence score.
pub open spec fn topic_adherence_reason_text(tp: nat, fp: nat, fneg: nat, topics: nat) -> Seq<char> {
    "tp="@ + decimal(tp) + " fp="@ + decimal(fp) + " fn="@ + decimal(fneg) + " over "@ + decimal(topics) + " topics"@
}

/// The reason of a topic-adherence score.
pub fn topic_adherence_reason(tp: usize, fp: usize, fneg: usize, topics: usize) -> (out: String)
    ensures
        out@ == topic_adherence_reason_text(tp as nat, fp as nat, fneg as nat, topics as nat),
{
    let mut out = String::new();
    push_str(&mut out, "tp=");
    push_decimal(&mut out, tp);
    push_str(&mut out, " fp=");
    push_decimal(&mut out, fp);
    push_str(&mut out, " fn=");
    push_decimal(&mut out, fneg);
    push_str(&mut out, " over ");
    push_decimal(&mut out, topics);
    push_str(&mut out, " topics");
    assert(out@ =~= topic_adherence_reason_text(tp as nat, fp as nat, fneg as nat, topics as nat));
    out
}


/// The metrics that the `evaluate` command runs, in report order: ROUGE-L always; with a chat
/// model, faithfulness and context utilization, and context recall when some sample has a
/// reference.
pub open spec fn evaluate_metric_plan(has_llm: bool, any_reference: bool) -> Seq<Seq<char>> {
    if !has_llm {
        seq!["rouge_l"@]
    } else if any_reference {
        seq!["rouge_l"@, "faithfulness"@, "context_utilization"@, "context_recall"@]
    } else {
        seq!["rouge_l"@, "faithfulness"@, "context_utilization"@]
    }
}

/// The names of the metrics that the `evaluate` command runs.
pub fn evaluate_metric_names(has_llm: bool, any_reference: bool) -> (out: Vec<&'static str>)
    ensures
        out@.map_values(|s: &'static str| s@) == evaluate_metric_plan(has_llm, any_reference),
{
    let mut out: Vec<&'static str> = Vec::new();
    out.push("rouge_l");
    if has_llm {
        out.push("faithfulness");
        out.push("context_utilization");
        if any_reference {
            out.push("context_recall");
        }
    }
    assert(out@.map_values(|s: &'static str| s@) =~= evaluate_metric_plan(has_llm, any_reference));
    out
}

} // verus!
