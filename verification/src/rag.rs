//! The lexical cores of the retrieval-augmented-generation metrics: meaningful tokens, claims,
//! entities, and the counts that context recall, entity recall, context relevance, response
//! groundedness and factual correctness are ratios of.
use vstd::prelude::*;

use crate::dataset::strings_view;
use crate::experiments::first_occurrences;
use crate::judged::count_in;
use crate::metric_base::MetricEvidence;
use crate::overlap::views;
use crate::string_map::{strictly_sorted, StringMap};
use crate::text::{
    decimal, push_decimal, push_str, to_owned_string, chars_equal, chars_of, is_ws, lower_seq, lowercase_chars, pieces, split_pieces, string_of,
    trim, trim_chars, trim_class, words, CharClass,
};
use crate::traditional::{byte_offset, lexical_token, utf8_width};

verus! {

/// The number of bytes of the UTF-8 encoding of `t`.
pub open spec fn byte_len(t: Seq<char>) -> nat {
    byte_offset(t, t.len() as int)
}

/// Whether the UTF-8 encoding of `t` is longer than `k` bytes.
fn byte_len_exceeds(t: &Vec<char>, k: usize) -> (b: bool)
    requires
        k < 1000,
    ensures
        b == (byte_len(t@) > k),
{
    let mut total: usize = 0;
    let mut i: usize = 0;
    while i < t.len()
        invariant
            k < 1000,
            i <= t@.len(),
            total == byte_offset(t@, i as int),
            total <= k,
        decreases t@.len() - i,
    {
        let c = t[i];
        let u = c as u32;
        let w: usize = if u < 0x80 { 1 } else if u < 0x800 { 2 } else if u < 0x10000 { 3 } else { 4 };
        assert(w == utf8_width(c));
        total = total + w;
        i = i + 1;
        if total > k {
            proof {
                lemma_byte_offset_grows(t@, i as int, t@.len() as int);
            }
            return true;
        }
    }
    false
}

proof fn lemma_byte_offset_grows(s: Seq<char>, i: int, j: int)
    requires
        0 <= i <= j <= s.len(),
    ensures
        byte_offset(s, i) <= byte_offset(s, j),
    decreases j - i,
{
    if i < j {
        lemma_byte_offset_grows(s, i, j - 1);
    }
}

/// A token as the lexical metrics compare it: the lexical form of the word, with a trailing
/// `s` dropped from forms longer than three bytes other than `does`.
pub open spec fn normalized(raw: Seq<char>) -> Seq<char> {
    let t = lexical_token(raw);
    if byte_len(t) > 3 && t != "does"@ && t.len() > 0 && t.last() == 's' {
        t.drop_last()
    } else {
        t
    }
}

/// The stopwords the lexical metrics ignore.
pub open spec fn stopword(t: Seq<char>) -> bool {
    t == "a"@ || t == "an"@ || t == "and"@ || t == "are"@ || t == "by"@ || t == "does"@ || t == "for"@
        || t == "how"@ || t == "in"@ || t == "is"@ || t == "of"@ || t == "the"@ || t == "to"@ || t == "with"@
}

/// The meaningful tokens of the words `ws`: normalized, longer than one byte, not stopwords.
pub open spec fn meaningful_from(ws: Seq<Seq<char>>) -> Seq<Seq<char>>
    decreases ws.len(),
{
    if ws.len() == 0 {
        Seq::empty()
    } else {
        let rest = meaningful_from(ws.drop_last());
        let t = normalized(ws.last());
        if byte_len(t) > 1 && !stopword(t) {
            rest.push(t)
        } else {
            rest
        }
    }
}

/// The meaningful tokens of a text.
pub open spec fn meaningful(s: Seq<char>) -> Seq<Seq<char>> {
    meaningful_from(words(s))
}

fn is_literal(t: &Vec<char>, lit: &str) -> (b: bool)
    ensures
        b == (t@ == lit@),
{
    let l = chars_of(lit);
    chars_equal(t, &l)
}

/// The normalized form of a word.
pub fn normalize_token(raw: &Vec<char>) -> (out: Vec<char>)
    ensures
        out@ == normalized(raw@),
{
    let trimmed = trim_chars(raw, CharClass::NonAlphanumeric);
    let mut t = lowercase_chars(&trimmed);
    if byte_len_exceeds(&t, 3) && !is_literal(&t, "does") && t.len() > 0 && t[t.len() - 1] == 's' {
        t.pop();
        assert(t@ =~= normalized(raw@));
    }
    t
}

/// Whether a token is a stopword.
pub fn is_stopword(t: &Vec<char>) -> (b: bool)
    ensures
        b == stopword(t@),
{
    is_literal(t, "a") || is_literal(t, "an") || is_literal(t, "and") || is_literal(t, "are")
        || is_literal(t, "by") || is_literal(t, "does") || is_literal(t, "for") || is_literal(t, "how")
        || is_literal(t, "in") || is_literal(t, "is") || is_literal(t, "of") || is_literal(t, "the")
        || is_literal(t, "to") || is_literal(t, "with")
}

/// The meaningful tokens of a text.
pub fn meaningful_tokens(text: &Vec<char>) -> (out: Vec<Vec<char>>)
    ensures
        views(out@) == meaningful(text@),
{
    let ws = split_pieces(text, CharClass::Whitespace);
    let ghost wv = views(ws@);
    let mut out: Vec<Vec<char>> = Vec::new();
    let mut i: usize = 0;
    while i < ws.len()
        invariant
            wv == views(ws@),
            wv == words(text@),
            i <= ws@.len(),
            views(out@) == meaningful_from(wv.take(i as int)),
        decreases ws@.len() - i,
    {
        assert(wv.take(i + 1).drop_last() =~= wv.take(i as int));
        assert(wv.take(i + 1).last() == ws@[i as int]@);
        let t = normalize_token(&ws[i]);
        if byte_len_exceeds(&t, 1) && !is_stopword(&t) {
            let ghost before = views(out@);
            out.push(t);
            assert(views(out@) =~= before.push(t@));
        }
        i = i + 1;
    }
    assert(wv.take(ws@.len() as int) =~= wv);
    out
}

/// The non-empty trimmed pieces among `ps`, in order.
pub open spec fn trimmed_nonempty(ps: Seq<Seq<char>>) -> Seq<Seq<char>>
    decreases ps.len(),
{
    if ps.len() == 0 {
        Seq::empty()
    } else {
        let rest = trimmed_nonempty(ps.drop_last());
        let t = trim(ps.last());
        if t.len() > 0 {
            rest.push(t)
        } else {
            rest
        }
    }
}

/// The claims of a text: its pieces between `.`, `?`, `!` and `;`, trimmed, empty ones dropped.
pub open spec fn claims(s: Seq<char>) -> Seq<Seq<char>> {
    trimmed_nonempty(pieces(s, CharClass::ClaimPunctuation))
}

/// The pieces of a text between characters of class `k`, trimmed, empty ones dropped.
pub fn trimmed_pieces(text: &Vec<char>, k: CharClass) -> (out: Vec<Vec<char>>)
    ensures
        views(out@) == trimmed_nonempty(pieces(text@, k)),
{
    let ps = split_pieces(text, k);
    let ghost pv = views(ps@);
    let mut out: Vec<Vec<char>> = Vec::new();
    let mut i: usize = 0;
    while i < ps.len()
        invariant
            pv == views(ps@),
            pv == pieces(text@, k),
            i <= ps@.len(),
            views(out@) == trimmed_nonempty(pv.take(i as int)),
        decreases ps@.len() - i,
    {
        assert(pv.take(i + 1).drop_last() =~= pv.take(i as int));
        assert(pv.take(i + 1).last() == ps@[i as int]@);
        let t = trim_chars(&ps[i], CharClass::Whitespace);
        if t.len() > 0 {
            let ghost before = views(out@);
            out.push(t);
            assert(views(out@) =~= before.push(t@));
        }
        i = i + 1;
    }
    assert(pv.take(ps@.len() as int) =~= pv);
    out
}

/// The claims of a text.
pub fn split_reference_claims(text: &Vec<char>) -> (out: Vec<Vec<char>>)
    ensures
        views(out@) == claims(text@),
{
    trimmed_pieces(text, CharClass::ClaimPunctuation)
}

/// Whether some text of `texts` has `t` among its meaningful tokens.
pub open spec fn token_of_any(t: Seq<char>, texts: Seq<Seq<char>>) -> bool {
    exists|i: int| 0 <= i < texts.len() && #[trigger] meaningful(texts[i]).contains(t)
}

/// The set of meaningful tokens of some texts.
fn token_set(texts: &Vec<Vec<char>>) -> (m: StringMap<bool>)
    ensures
        forall|t: Seq<char>| #[trigger] m@.contains_key(t) <==> token_of_any(t, views(texts@)),
{
    let ghost tv = views(texts@);
    let mut m: StringMap<bool> = StringMap::new();
    let mut i: usize = 0;
    while i < texts.len()
        invariant
            tv == views(texts@),
            i <= texts@.len(),
            forall|t: Seq<char>| #[trigger] m@.contains_key(t) <==> token_of_any(t, tv.take(i as int)),
        decreases texts@.len() - i,
    {
        let toks = meaningful_tokens(&texts[i]);
        let ghost before = m@;
        let mut j: usize = 0;
        while j < toks.len()
            invariant
                j <= toks@.len(),
                forall|t: Seq<char>| #[trigger] m@.contains_key(t) <==> (before.contains_key(t) || views(toks@).take(j as int).contains(t)),
            decreases toks@.len() - j,
        {
            let s = string_of(&toks[j]);
            m.insert(s, true);
            proof {
                assert forall|t: Seq<char>| #[trigger] views(toks@).take(j + 1).contains(t) <==> (views(toks@).take(j as int).contains(t) || t == toks@[j as int]@) by {
                    let a = views(toks@).take(j as int);
                    assert(views(toks@).take(j + 1) =~= a.push(toks@[j as int]@));
                    if a.push(toks@[j as int]@).contains(t) {
                        let q = choose|q: int| 0 <= q < a.len() + 1 && #[trigger] a.push(toks@[j as int]@)[q] == t;
                        if q < a.len() {
                            assert(a[q] == t);
                        }
                    }
                    if a.contains(t) {
                        let q = choose|q: int| 0 <= q < a.len() && #[trigger] a[q] == t;
                        assert(a.push(toks@[j as int]@)[q] == t);
                    }
                    if t == toks@[j as int]@ {
                        assert(a.push(toks@[j as int]@)[a.len() as int] == t);
                    }
                }
            }
            j = j + 1;
        }
        proof {
            assert(views(toks@).take(toks@.len() as int) =~= views(toks@));
            assert forall|t: Seq<char>| #[trigger] m@.contains_key(t) <==> token_of_any(t, tv.take(i + 1)) by {
                if token_of_any(t, tv.take(i + 1)) {
                    let q = choose|q: int| 0 <= q < tv.take(i + 1).len() && #[trigger] meaningful(tv.take(i + 1)[q]).contains(t);
                    if q < i {
                        assert(tv.take(i as int)[q] == tv.take(i + 1)[q]);
                    } else {
                        assert(tv.take(i + 1)[q] == texts@[i as int]@);
                    }
                }
                if token_of_any(t, tv.take(i as int)) {
                    let q = choose|q: int| 0 <= q < tv.take(i as int).len() && #[trigger] meaningful(tv.take(i as int)[q]).contains(t);
                    assert(tv.take(i as int)[q] == tv.take(i + 1)[q]);
                }
                if views(toks@).contains(t) {
                    assert(tv.take(i + 1)[i as int] == texts@[i as int]@);
                }
            }
        }
        i = i + 1;
    }
    assert(tv.take(texts@.len() as int) =~= tv);
    m
}

/// Whether every token of `ts` satisfies membership in `m`'s keys.
fn all_in(ts: &Vec<Vec<char>>, m: &StringMap<bool>) -> (b: bool)
    ensures
        b == forall|k: int| 0 <= k < ts@.len() ==> m@.contains_key(#[trigger] ts@[k]@),
{
    let mut i: usize = 0;
    while i < ts.len()
        invariant
            i <= ts@.len(),
            forall|k: int| 0 <= k < i ==> m@.contains_key(#[trigger] ts@[k]@),
        decreases ts@.len() - i,
    {
        let s = string_of(&ts[i]);
        if !m.contains_key(s.as_str()) {
            return false;
        }
        i = i + 1;
    }
    true
}

/// Whether a claim is covered by a token set: it has meaningful tokens and all are in the set.
pub open spec fn covered_by(claim: Seq<char>, texts: Seq<Seq<char>>) -> bool {
    meaningful(claim).len() > 0 && forall|k: int| 0 <= k < meaningful(claim).len() ==> token_of_any(#[trigger] meaningful(claim)[k], texts)
}

/// How many claims are covered by the tokens of `texts`.
pub open spec fn covered_count(cs: Seq<Seq<char>>, texts: Seq<Seq<char>>) -> nat
    decreases cs.len(),
{
    if cs.len() == 0 {
        0
    } else {
        covered_count(cs.drop_last(), texts) + if covered_by(cs.last(), texts) {
            1nat
        } else {
            0nat
        }
    }
}

fn chars_list(texts: &Vec<String>) -> (out: Vec<Vec<char>>)
    ensures
        views(out@) == strings_view(texts@),
{
    let mut out: Vec<Vec<char>> = Vec::new();
    let mut i: usize = 0;
    while i < texts.len()
        invariant
            i <= texts@.len(),
            views(out@) == strings_view(texts@).take(i as int),
        decreases texts@.len() - i,
    {
        let ghost before = views(out@);
        let c = chars_of(texts[i].as_str());
        out.push(c);
        assert(views(out@) =~= before.push(c@));
        assert(strings_view(texts@).take(i + 1) =~= strings_view(texts@).take(i as int).push(texts@[i as int]@));
        i = i + 1;
    }
    assert(strings_view(texts@).take(texts@.len() as int) =~= strings_view(texts@));
    out
}

fn count_covered(cs: &Vec<Vec<char>>, set: &StringMap<bool>, ghost_texts: Ghost<Seq<Seq<char>>>) -> (n: usize)
    requires
        forall|t: Seq<char>| #[trigger] set@.contains_key(t) <==> token_of_any(t, ghost_texts@),
    ensures
        n == covered_count(views(cs@), ghost_texts@),
        n <= cs@.len(),
{
    let ghost cv = views(cs@);
    let mut n: usize = 0;
    let mut i: usize = 0;
    while i < cs.len()
        invariant
            cv == views(cs@),
            forall|t: Seq<char>| #[trigger] set@.contains_key(t) <==> token_of_any(t, ghost_texts@),
            i <= cs@.len(),
            n <= i,
            n == covered_count(cv.take(i as int), ghost_texts@),
        decreases cs@.len() - i,
    {
        assert(cv.take(i + 1).drop_last() =~= cv.take(i as int));
        assert(cv.take(i + 1).last() == cs@[i as int]@);
        let toks = meaningful_tokens(&cs[i]);
        if toks.len() > 0 && all_in(&toks, set) {
            proof {
                assert forall|k: int| 0 <= k < meaningful(cs@[i as int]@).len() implies token_of_any(#[trigger] meaningful(cs@[i as int]@)[k], ghost_texts@) by {
                    assert(views(toks@)[k] == toks@[k]@);
                    assert(set@.contains_key(toks@[k]@));
                }
            }
            n = n + 1;
        } else {
            proof {
                if toks@.len() > 0 && covered_by(cs@[i as int]@, ghost_texts@) {
                    assert forall|k: int| 0 <= k < toks@.len() implies set@.contains_key(#[trigger] toks@[k]@) by {
                        assert(views(toks@)[k] == toks@[k]@);
                        assert(token_of_any(meaningful(cs@[i as int]@)[k], ghost_texts@));
                    }
                }
            }
        }
        i = i + 1;
    }
    assert(cv.take(cs@.len() as int) =~= cv);
    n
}

/// The context-recall counts: how many claims of the reference are covered by the tokens of
/// the contexts, and how many claims it has.
pub fn context_recall_counts(reference: &str, contexts: &Vec<String>) -> (r: (usize, usize))
    ensures
        r.1 == claims(reference@).len(),
        r.0 == covered_count(claims(reference@), strings_view(contexts@)),
{
    let cs = split_reference_claims(&chars_of(reference));
    let texts = chars_list(contexts);
    let set = token_set(&texts);
    let ghost g = strings_view(contexts@);
    let covered = count_covered(&cs, &set, Ghost(g));
    (covered, cs.len())
}

/// The source of a piece of evidence that points at an item: `prefix`, the index, `]`.
pub open spec fn indexed_source(prefix: Seq<char>, i: nat) -> Seq<char> {
    prefix + decimal(i) + "]"@
}

/// The source and text of a piece of evidence.
pub open spec fn evidence_view(e: MetricEvidence) -> (Seq<char>, Seq<char>) {
    (e.source@, e.text@)
}

/// The contents of a list of evidence.
pub open spec fn evidence_views(es: Seq<MetricEvidence>) -> Seq<(Seq<char>, Seq<char>)> {
    es.map_values(|e: MetricEvidence| evidence_view(e))
}

fn indexed_evidence(prefix: &str, i: usize, text: &str) -> (e: MetricEvidence)
    ensures
        evidence_view(e) == (indexed_source(prefix@, i as nat), text@),
{
    let mut source = String::new();
    push_str(&mut source, prefix);
    push_decimal(&mut source, i);
    push_str(&mut source, "]");
    MetricEvidence { source, text: to_owned_string(text) }
}

/// The evidence of context recall: for each claim of the reference covered by the contexts, in
/// order, the claim with the source `reference[<index>]`.
pub open spec fn recall_evidence(cs: Seq<Seq<char>>, texts: Seq<Seq<char>>) -> Seq<(Seq<char>, Seq<char>)>
    decreases cs.len(),
{
    if cs.len() == 0 {
        Seq::empty()
    } else {
        let rest = recall_evidence(cs.drop_last(), texts);
        if covered_by(cs.last(), texts) {
            rest.push((indexed_source("reference["@, (cs.len() - 1) as nat), cs.last()))
        } else {
            rest
        }
    }
}

/// The evidence of context recall: each reference claim that the contexts cover.
pub fn context_recall_evidence(reference: &str, contexts: &Vec<String>) -> (r: Vec<MetricEvidence>)
    ensures
        evidence_views(r@) == recall_evidence(claims(reference@), strings_view(contexts@)),
{
    let cs = split_reference_claims(&chars_of(reference));
    let texts = chars_list(contexts);
    let set = token_set(&texts);
    let ghost cv = views(cs@);
    let ghost tv = strings_view(contexts@);
    let mut r: Vec<MetricEvidence> = Vec::new();
    let mut i: usize = 0;
    while i < cs.len()
        invariant
            cv == views(cs@),
            cv == claims(reference@),
            tv == strings_view(contexts@),
            forall|t: Seq<char>| #[trigger] set@.contains_key(t) <==> token_of_any(t, tv),
            i <= cs@.len(),
            evidence_views(r@) == recall_evidence(cv.take(i as int), tv),
        decreases cs@.len() - i,
    {
        assert(cv.take(i + 1).drop_last() =~= cv.take(i as int));
        assert(cv.take(i + 1).last() == cs@[i as int]@);
        let toks = meaningful_tokens(&cs[i]);
        let ghost before = evidence_views(r@);
        if toks.len() > 0 && all_in(&toks, &set) {
            proof {
                assert forall|k: int| 0 <= k < meaningful(cs@[i as int]@).len() implies token_of_any(#[trigger] meaningful(cs@[i as int]@)[k], tv) by {
                    assert(views(toks@)[k] == toks@[k]@);
                    assert(set@.contains_key(toks@[k]@));
                }
            }
            let claim = string_of(&cs[i]);
            let e = indexed_evidence("reference[", i, claim.as_str());
            r.push(e);
            assert(evidence_views(r@) =~= before.push(evidence_view(e)));
        } else {
            proof {
                if toks@.len() > 0 && covered_by(cs@[i as int]@, tv) {
                    assert forall|k: int| 0 <= k < toks@.len() implies set@.contains_key(#[trigger] toks@[k]@) by {
                        assert(views(toks@)[k] == toks@[k]@);
                        assert(token_of_any(meaningful(cs@[i as int]@)[k], tv));
                    }
                }
            }
        }
        i = i + 1;
    }
    assert(cv.take(cs@.len() as int) =~= cv);
    r
}

/// How many claims are covered by at least one text on its own.
pub open spec fn grounded_count(cs: Seq<Seq<char>>, texts: Seq<Seq<char>>) -> nat
    decreases cs.len(),
{
    if cs.len() == 0 {
        0
    } else {
        grounded_count(cs.drop_last(), texts) + if exists|j: int| 0 <= j < texts.len() && covered_by(cs.last(), #[trigger] seq![texts[j]]) {
            1nat
        } else {
            0nat
        }
    }
}

/// The response-groundedness counts: how many claims of the response are covered by a single
/// context, and how many claims it has.
pub fn response_groundedness_counts(response: &str, contexts: &Vec<String>) -> (r: (usize, usize))
    ensures
        r.1 == claims(response@).len(),
        r.0 == grounded_count(claims(response@), strings_view(contexts@)),
{
    let cs = split_reference_claims(&chars_of(response));
    let texts = chars_list(contexts);
    let ghost tv = strings_view(contexts@);
    let ghost cv = views(cs@);
    let mut sets: Vec<StringMap<bool>> = Vec::new();
    let mut j: usize = 0;
    while j < texts.len()
        invariant
            views(texts@) == tv,
            j <= texts@.len(),
            sets@.len() == j,
            forall|q: int, t: Seq<char>| 0 <= q < j ==> (#[trigger] sets@[q]@.contains_key(t) <==> token_of_any(t, seq![tv[q]])),
        decreases texts@.len() - j,
    {
        let one: Vec<Vec<char>> = vec![texts[j].clone()];
        assert(views(one@) =~= seq![tv[j as int]]);
        let set = token_set(&one);
        sets.push(set);
        j = j + 1;
    }
    let mut n: usize = 0;
    let mut i: usize = 0;
    while i < cs.len()
        invariant
            cv == views(cs@),
            cv == claims(response@),
            sets@.len() == tv.len(),
            forall|q: int, t: Seq<char>| 0 <= q < tv.len() ==> (#[trigger] sets@[q]@.contains_key(t) <==> token_of_any(t, seq![tv[q]])),
            i <= cs@.len(),
            n <= i,
            n == grounded_count(cv.take(i as int), tv),
        decreases cs@.len() - i,
    {
        assert(cv.take(i + 1).drop_last() =~= cv.take(i as int));
        assert(cv.take(i + 1).last() == cs@[i as int]@);
        let one_claim: Vec<Vec<char>> = vec![cs[i].clone()];
        assert(views(one_claim@) =~= seq![cs@[i as int]@]);
        let mut found = false;
        let mut q: usize = 0;
        while q < sets.len()
            invariant
                sets@.len() == tv.len(),
                forall|q2: int, t: Seq<char>| 0 <= q2 < tv.len() ==> (#[trigger] sets@[q2]@.contains_key(t) <==> token_of_any(t, seq![tv[q2]])),
                views(one_claim@) == seq![cs@[i as int]@],
                i < cs@.len(),
                q <= sets@.len(),
                found == exists|jj: int| 0 <= jj < q && covered_by(cs@[i as int]@, #[trigger] seq![tv[jj]]),
            decreases sets@.len() - q,
        {
            let ghost g = seq![tv[q as int]];
            let c = count_covered(&one_claim, &sets[q], Ghost(g));
            proof {
                assert(views(one_claim@).drop_last() =~= Seq::<Seq<char>>::empty());
                assert(views(one_claim@).last() == cs@[i as int]@);
                assert(covered_count(Seq::<Seq<char>>::empty(), g) == 0);
                assert(covered_count(views(one_claim@), g) == covered_count(views(one_claim@).drop_last(), g) + if covered_by(views(one_claim@).last(), g) { 1nat } else { 0nat });
                assert(c == 1 <==> covered_by(cs@[i as int]@, seq![tv[q as int]]));
            }
            if c == 1 {
                found = true;
            }
            q = q + 1;
        }
        if found {
            n = n + 1;
        }
        i = i + 1;
    }
    assert(cv.take(cs@.len() as int) =~= cv);
    (n, cs.len())
}

/// The first context, from position `j` on, that covers the claim on its own.
pub open spec fn first_grounding(claim: Seq<char>, texts: Seq<Seq<char>>, j: int) -> Option<nat>
    decreases texts.len() - j,
{
    if j < 0 || j >= texts.len() {
        None
    } else if covered_by(claim, seq![texts[j]]) {
        Some(j as nat)
    } else {
        first_grounding(claim, texts, j + 1)
    }
}

/// The evidence of response groundedness: for each claim of the response that some context
/// covers on its own, in order, the first such context with the source `context[<index>]`.
pub open spec fn grounding_evidence(cs: Seq<Seq<char>>, texts: Seq<Seq<char>>) -> Seq<(Seq<char>, Seq<char>)>
    decreases cs.len(),
{
    if cs.len() == 0 {
        Seq::empty()
    } else {
        let rest = grounding_evidence(cs.drop_last(), texts);
        match first_grounding(cs.last(), texts, 0) {
            Some(j) => rest.push((indexed_source("context["@, j), texts[j as int])),
            None => rest,
        }
    }
}

/// The evidence of response groundedness: the first context that grounds each response claim.
pub fn response_groundedness_evidence(response: &str, contexts: &Vec<String>) -> (r: Vec<MetricEvidence>)
    ensures
        evidence_views(r@) == grounding_evidence(claims(response@), strings_view(contexts@)),
{
    let cs = split_reference_claims(&chars_of(response));
    let texts = chars_list(contexts);
    let ghost tv = strings_view(contexts@);
    let ghost cv = views(cs@);
    let mut sets: Vec<StringMap<bool>> = Vec::new();
    let mut j: usize = 0;
    while j < texts.len()
        invariant
            views(texts@) == tv,
            j <= texts@.len(),
            sets@.len() == j,
            forall|q: int, t: Seq<char>| 0 <= q < j ==> (#[trigger] sets@[q]@.contains_key(t) <==> token_of_any(t, seq![tv[q]])),
        decreases texts@.len() - j,
    {
        let one: Vec<Vec<char>> = vec![texts[j].clone()];
        assert(views(one@) =~= seq![tv[j as int]]);
        let set = token_set(&one);
        sets.push(set);
        j = j + 1;
    }
    let mut r: Vec<MetricEvidence> = Vec::new();
    let mut i: usize = 0;
    while i < cs.len()
        invariant
            cv == views(cs@),
            cv == claims(response@),
            tv == strings_view(contexts@),
            sets@.len() == tv.len(),
            forall|q: int, t: Seq<char>| 0 <= q < tv.len() ==> (#[trigger] sets@[q]@.contains_key(t) <==> token_of_any(t, seq![tv[q]])),
            i <= cs@.len(),
            evidence_views(r@) == grounding_evidence(cv.take(i as int), tv),
        decreases cs@.len() - i,
    {
        assert(cv.take(i + 1).drop_last() =~= cv.take(i as int));
        assert(cv.take(i + 1).last() == cs@[i as int]@);
        let ghost claim = cs@[i as int]@;
        let one_claim: Vec<Vec<char>> = vec![cs[i].clone()];
        assert(views(one_claim@) =~= seq![claim]);
        let mut found: Option<usize> = None;
        let mut q: usize = 0;
        while q < sets.len() && found.is_none()
            invariant
                sets@.len() == tv.len(),
                forall|q2: int, t: Seq<char>| 0 <= q2 < tv.len() ==> (#[trigger] sets@[q2]@.contains_key(t) <==> token_of_any(t, seq![tv[q2]])),
                views(one_claim@) == seq![claim],
                q <= sets@.len(),
                match found {
                    None => first_grounding(claim, tv, 0) == first_grounding(claim, tv, q as int),
                    Some(jj) => jj < tv.len() && first_grounding(claim, tv, 0) == Some(jj as nat),
                },
            decreases sets@.len() - q, if found is None { 1int } else { 0int },
        {
            let ghost g = seq![tv[q as int]];
            let c = count_covered(&one_claim, &sets[q], Ghost(g));
            proof {
                assert(views(one_claim@).drop_last() =~= Seq::<Seq<char>>::empty());
                assert(views(one_claim@).last() == claim);
                assert(covered_count(Seq::<Seq<char>>::empty(), g) == 0);
                assert(covered_count(views(one_claim@), g) == covered_count(views(one_claim@).drop_last(), g) + if covered_by(views(one_claim@).last(), g) { 1nat } else { 0nat });
                assert(c == 1 <==> covered_by(claim, seq![tv[q as int]]));
            }
            if c == 1 {
                found = Some(q);
            } else {
                q = q + 1;
            }
        }
        let ghost before = evidence_views(r@);
        match found {
            Some(jj) => {
                let e = indexed_evidence("context[", jj, contexts[jj].as_str());
                r.push(e);
                assert(evidence_views(r@) =~= before.push(evidence_view(e)));
            },
            None => {
                assert(first_grounding(claim, tv, q as int) is None);
            },
        }
        i = i + 1;
    }
    assert(cv.take(cs@.len() as int) =~= cv);
    r
}

/// Whether a cleaned word is an entity: it starts with an ASCII capital letter.
pub open spec fn is_entity(w: Seq<char>) -> bool {
    w.len() > 0 && crate::text::is_upper(w[0])
}

/// The entities of the words `ws`: each word stripped of non-alphanumeric edges that starts
/// with a capital letter, keeping the first of those with the same normalized form.
pub open spec fn entities_from(ws: Seq<Seq<char>>) -> Seq<Seq<char>>
    decreases ws.len(),
{
    if ws.len() == 0 {
        Seq::empty()
    } else {
        let rest = entities_from(ws.drop_last());
        let c = trim_class(ws.last(), CharClass::NonAlphanumeric);
        if is_entity(c) && !(exists|k: int| 0 <= k < rest.len() && #[trigger] normalized(rest[k]) == normalized(c)) {
            rest.push(c)
        } else {
            rest
        }
    }
}

/// The entities of a text.
pub open spec fn entities(s: Seq<char>) -> Seq<Seq<char>> {
    entities_from(words(s))
}

/// The entities of a text.
pub fn extract_entities(text: &Vec<char>) -> (out: Vec<Vec<char>>)
    ensures
        views(out@) == entities(text@),
{
    let ws = split_pieces(text, CharClass::Whitespace);
    let ghost wv = views(ws@);
    let mut out: Vec<Vec<char>> = Vec::new();
    let mut seen: Vec<Vec<char>> = Vec::new();
    let mut i: usize = 0;
    while i < ws.len()
        invariant
            wv == views(ws@),
            wv == words(text@),
            i <= ws@.len(),
            views(out@) == entities_from(wv.take(i as int)),
            seen@.len() == out@.len(),
            forall|k: int| 0 <= k < seen@.len() ==> (#[trigger] seen@[k])@ == normalized(out@[k]@),
        decreases ws@.len() - i,
    {
        assert(wv.take(i + 1).drop_last() =~= wv.take(i as int));
        assert(wv.take(i + 1).last() == ws@[i as int]@);
        let c = trim_chars(&ws[i], CharClass::NonAlphanumeric);
        if c.len() > 0 && 'A' <= c[0] && c[0] <= 'Z' {
            let norm = normalize_token(&c);
            let mut dup = false;
            let mut k: usize = 0;
            while k < seen.len()
                invariant
                    k <= seen@.len(),
                    dup == exists|q: int| 0 <= q < k && (#[trigger] seen@[q])@ == norm@,
                decreases seen@.len() - k,
            {
                if chars_equal(&seen[k], &norm) {
                    dup = true;
                }
                k = k + 1;
            }
            proof {
                let rest = views(out@);
                if dup {
                    let q = choose|q: int| 0 <= q < seen@.len() && (#[trigger] seen@[q])@ == norm@;
                    assert(normalized(rest[q]) == normalized(c@));
                } else {
                    assert forall|q: int| 0 <= q < rest.len() implies #[trigger] normalized(rest[q]) != normalized(c@) by {
                        assert(seen@[q]@ == normalized(out@[q]@));
                    }
                }
            }
            if !dup {
                let ghost before = views(out@);
                out.push(c);
                seen.push(norm);
                assert(views(out@) =~= before.push(c@));
            }
        }
        i = i + 1;
    }
    assert(wv.take(ws@.len() as int) =~= wv);
    out
}

/// How many of `es` have a normalized form among the tokens of `texts`.
pub open spec fn entity_hits(es: Seq<Seq<char>>, texts: Seq<Seq<char>>) -> nat
    decreases es.len(),
{
    if es.len() == 0 {
        0
    } else {
        entity_hits(es.drop_last(), texts) + if token_of_any(normalized(es.last()), texts) {
            1nat
        } else {
            0nat
        }
    }
}

/// The entity-recall counts: how many entities of the reference occur among the tokens of the
/// contexts, and how many entities it has.
pub fn context_entity_recall_counts(reference: &str, contexts: &Vec<String>) -> (r: (usize, usize))
    ensures
        r.1 == entities(reference@).len(),
        r.0 == entity_hits(entities(reference@), strings_view(contexts@)),
{
    let es = extract_entities(&chars_of(reference));
    let texts = chars_list(contexts);
    let set = token_set(&texts);
    let ghost ev = views(es@);
    let ghost tv = strings_view(contexts@);
    let mut n: usize = 0;
    let mut i: usize = 0;
    while i < es.len()
        invariant
            ev == views(es@),
            forall|t: Seq<char>| #[trigger] set@.contains_key(t) <==> token_of_any(t, tv),
            i <= es@.len(),
            n <= i,
            n == entity_hits(ev.take(i as int), tv),
        decreases es@.len() - i,
    {
        assert(ev.take(i + 1).drop_last() =~= ev.take(i as int));
        assert(ev.take(i + 1).last() == es@[i as int]@);
        let norm = normalize_token(&es[i]);
        let s = string_of(&norm);
        if set.contains_key(s.as_str()) {
            n = n + 1;
        }
        i = i + 1;
    }
    assert(ev.take(es@.len() as int) =~= ev);
    (n, es.len())
}

/// The evidence of entity recall: for each entity of the reference whose normalized form occurs
/// among the context tokens, in order, the source `entity:<entity>`.
pub open spec fn entity_evidence(es: Seq<Seq<char>>, texts: Seq<Seq<char>>) -> Seq<(Seq<char>, Seq<char>)>
    decreases es.len(),
{
    if es.len() == 0 {
        Seq::empty()
    } else {
        let rest = entity_evidence(es.drop_last(), texts);
        if token_of_any(normalized(es.last()), texts) {
            rest.push(("entity:"@ + es.last(), "matched in retrieved contexts"@))
        } else {
            rest
        }
    }
}

/// The evidence of entity recall: each reference entity found in the contexts.
pub fn context_entity_recall_evidence(reference: &str, contexts: &Vec<String>) -> (r: Vec<MetricEvidence>)
    ensures
        evidence_views(r@) == entity_evidence(entities(reference@), strings_view(contexts@)),
{
    let es = extract_entities(&chars_of(reference));
    let texts = chars_list(contexts);
    let set = token_set(&texts);
    let ghost ev = views(es@);
    let ghost tv = strings_view(contexts@);
    let mut r: Vec<MetricEvidence> = Vec::new();
    let mut i: usize = 0;
    while i < es.len()
        invariant
            ev == views(es@),
            forall|t: Seq<char>| #[trigger] set@.contains_key(t) <==> token_of_any(t, tv),
            i <= es@.len(),
            evidence_views(r@) == entity_evidence(ev.take(i as int), tv),
        decreases es@.len() - i,
    {
        assert(ev.take(i + 1).drop_last() =~= ev.take(i as int));
        assert(ev.take(i + 1).last() == es@[i as int]@);
        let norm = normalize_token(&es[i]);
        let key = string_of(&norm);
        let ghost before = evidence_views(r@);
        if set.contains_key(key.as_str()) {
            let mut source = String::new();
            push_str(&mut source, "entity:");
            let name = string_of(&es[i]);
            push_str(&mut source, name.as_str());
            let e = MetricEvidence { source, text: to_owned_string("matched in retrieved contexts") };
            r.push(e);
            assert(evidence_views(r@) =~= before.push(evidence_view(e)));
        }
        i = i + 1;
    }
    assert(ev.take(es@.len() as int) =~= ev);
    r
}

fn contains_token(v: &Vec<Vec<char>>, x: &Vec<char>) -> (r: bool)
    ensures
        r == views(v@).contains(x@),
{
    let mut i: usize = 0;
    while i < v.len()
        invariant
            i <= v@.len(),
            forall|j: int| 0 <= j < i ==> v@[j]@ != x@,
        decreases v@.len() - i,
    {
        if chars_equal(&v[i], x) {
            assert(views(v@)[i as int] == x@);
            return true;
        }
        i = i + 1;
    }
    proof {
        if views(v@).contains(x@) {
            let j = choose|j: int| 0 <= j < views(v@).len() && views(v@)[j] == x@;
            assert(v@[j]@ == x@);
        }
    }
    false
}

/// The distinct meaningful tokens of the user input, and for each context how many of them
/// occur among the context's meaningful tokens (the lexical context-relevance counts).
pub fn context_relevance_overlaps(user_input: &str, contexts: &Vec<String>) -> (r: (usize, Vec<usize>))
    ensures
        r.0 == first_occurrences(meaningful(user_input@)).len(),
        r.1@.len() == contexts@.len(),
        forall|i: int| 0 <= i < contexts@.len() ==> #[trigger] r.1@[i] == count_in(
            first_occurrences(meaningful(user_input@)),
            meaningful(contexts@[i]@),
        ),
{
    let toks = meaningful_tokens(&chars_of(user_input));
    let ghost qv = views(toks@);
    let mut distinct: Vec<Vec<char>> = Vec::new();
    let mut k: usize = 0;
    while k < toks.len()
        invariant
            k <= toks@.len(),
            qv == views(toks@),
            views(distinct@) == first_occurrences(qv.take(k as int)),
        decreases toks@.len() - k,
    {
        assert(qv.take(k + 1).drop_last() =~= qv.take(k as int));
        assert(qv.take(k + 1).last() == toks@[k as int]@);
        let ghost before = views(distinct@);
        if !contains_token(&distinct, &toks[k]) {
            distinct.push(toks[k].clone());
            assert(views(distinct@) =~= before.push(toks@[k as int]@));
        }
        k = k + 1;
    }
    assert(qv.take(toks@.len() as int) =~= qv);
    let ghost dv = views(distinct@);
    let mut overlaps: Vec<usize> = Vec::new();
    let mut i: usize = 0;
    while i < contexts.len()
        invariant
            i <= contexts@.len(),
            dv == views(distinct@),
            dv == first_occurrences(meaningful(user_input@)),
            overlaps@.len() == i,
            forall|a: int| 0 <= a < i ==> #[trigger] overlaps@[a] == count_in(dv, meaningful(contexts@[a]@)),
        decreases contexts@.len() - i,
    {
        let ctx = meaningful_tokens(&chars_of(contexts[i].as_str()));
        let mut n: usize = 0;
        let mut j: usize = 0;
        while j < distinct.len()
            invariant
                j <= distinct@.len(),
                dv == views(distinct@),
                views(ctx@) == meaningful(contexts@[i as int]@),
                n <= j,
                n == count_in(dv.take(j as int), views(ctx@)),
            decreases distinct@.len() - j,
        {
            assert(dv.take(j + 1).drop_last() =~= dv.take(j as int));
            assert(dv.take(j + 1).last() == distinct@[j as int]@);
            if contains_token(&ctx, &distinct[j]) {
                n = n + 1;
            }
            j = j + 1;
        }
        assert(dv.take(distinct@.len() as int) =~= dv);
        overlaps.push(n);
        i = i + 1;
    }
    (distinct.len(), overlaps)
}

/// The evidence of context relevance: each context that shares a token with the user input,
/// with the source `context[<index>]`.
pub open spec fn overlap_evidence(contexts: Seq<Seq<char>>, overlaps: Seq<usize>) -> Seq<(Seq<char>, Seq<char>)>
    decreases contexts.len(),
{
    if contexts.len() == 0 {
        Seq::empty()
    } else {
        let rest = overlap_evidence(contexts.drop_last(), overlaps);
        let i = contexts.len() - 1;
        if i < overlaps.len() && overlaps[i] > 0 {
            rest.push((indexed_source("context["@, i as nat), contexts.last()))
        } else {
            rest
        }
    }
}

/// The evidence of context relevance from the overlap counts of the contexts.
pub fn context_relevance_evidence(contexts: &Vec<String>, overlaps: &Vec<usize>) -> (r: Vec<MetricEvidence>)
    ensures
        evidence_views(r@) == overlap_evidence(strings_view(contexts@), overlaps@),
{
    let ghost cv = strings_view(contexts@);
    let mut r: Vec<MetricEvidence> = Vec::new();
    let mut i: usize = 0;
    while i < contexts.len()
        invariant
            i <= contexts@.len(),
            cv == strings_view(contexts@),
            evidence_views(r@) == overlap_evidence(cv.take(i as int), overlaps@),
        decreases contexts@.len() - i,
    {
        assert(cv.take(i + 1).drop_last() =~= cv.take(i as int));
        assert(cv.take(i + 1).last() == contexts@[i as int]@);
        let ghost before = evidence_views(r@);
        if i < overlaps.len() && overlaps[i] > 0 {
            let e = indexed_evidence("context[", i, contexts[i].as_str());
            r.push(e);
            assert(evidence_views(r@) =~= before.push(evidence_view(e)));
        }
        i = i + 1;
    }
    assert(cv.take(contexts@.len() as int) =~= cv);
    r
}

/// The counts of true positives, false positives and false negatives of a claim comparison.
#[derive(Debug, Clone, Copy, PartialEq, Eq, Structural)]
pub struct FactualCorrectnessCounts {
    pub true_positive: usize,
    pub false_positive: usize,
    pub false_negative: usize,
}

impl FactualCorrectnessCounts {
    pub fn new(true_positive: usize, false_positive: usize, false_negative: usize) -> (c: Self)
        ensures
            c.true_positive == true_positive,
            c.false_positive == false_positive,
            c.false_negative == false_negative,
    {
        FactualCorrectnessCounts { true_positive, false_positive, false_negative }
    }

    /// The counts as `TP=<tp> FP=<fp> FN=<fn>`.
    pub fn counts_text(&self) -> (out: String)
        ensures
            out@ == "TP="@ + decimal(self.true_positive as nat) + " FP="@ + decimal(self.false_positive as nat)
                + " FN="@ + decimal(self.false_negative as nat),
    {
        let mut out = String::new();
        push_str(&mut out, "TP=");
        push_decimal(&mut out, self.true_positive);
        push_str(&mut out, " FP=");
        push_decimal(&mut out, self.false_positive);
        push_str(&mut out, " FN=");
        push_decimal(&mut out, self.false_negative);
        assert(out@ =~= "TP="@ + decimal(self.true_positive as nat) + " FP="@ + decimal(self.false_positive as nat)
            + " FN="@ + decimal(self.false_negative as nat));
        out
    }

    /// The F1 of the counts as a fraction `2·TP / (2·TP + FP + FN)` (numerator, denominator).
    pub fn f1_fraction(&self) -> (r: (u128, u128))
        ensures
            r.0 == 2 * self.true_positive,
            r.1 == 2 * self.true_positive + self.false_positive + self.false_negative,
    {
        let tp = self.true_positive as u128;
        let numerator = 2 * tp;
        (numerator, numerator + self.false_positive as u128 + self.false_negative as u128)
    }
}

/// The variants of context precision.
#[derive(Debug, Clone, Copy, PartialEq, Eq, Structural)]
pub enum ContextPrecisionVariant {
    RankedRelevance,
    IdOverlap,
}

impl ContextPrecisionVariant {
    /// The formula of the variant, in words.
    pub fn formula(&self) -> (s: &'static str)
        ensures
            *self == ContextPrecisionVariant::RankedRelevance ==> s@ == "sum(precision@k for relevant context at k) / total relevant contexts"@,
            *self == ContextPrecisionVariant::IdOverlap ==> s@ == "retrieved reference id overlap / retrieved ids"@,
    {
        match self {
            ContextPrecisionVariant::RankedRelevance => "sum(precision@k for relevant context at k) / total relevant contexts",
            ContextPrecisionVariant::IdOverlap => "retrieved reference id overlap / retrieved ids",
        }
    }
}

/// The precision at each relevant rank: for each relevant context in order, the number of
/// relevant contexts up to it and its rank (counting from 1).
pub open spec fn precision_points(relevance: Seq<bool>) -> Seq<(nat, nat)>
    decreases relevance.len(),
{
    if relevance.len() == 0 {
        Seq::empty()
    } else {
        let rest = precision_points(relevance.drop_last());
        if relevance.last() {
            rest.push(((rest.len() + 1) as nat, relevance.len()))
        } else {
            rest
        }
    }
}

/// The precision@k points of ranked relevance verdicts, as (relevant so far, rank) pairs.
pub fn context_precision_points(relevance: &Vec<bool>) -> (r: Vec<(usize, usize)>)
    ensures
        r@.map_values(|p: (usize, usize)| (p.0 as nat, p.1 as nat)) == precision_points(relevance@),
{
    let mut r: Vec<(usize, usize)> = Vec::new();
    let mut i: usize = 0;
    while i < relevance.len()
        invariant
            i <= relevance@.len(),
            r@.len() <= i,
            r@.map_values(|p: (usize, usize)| (p.0 as nat, p.1 as nat)) == precision_points(relevance@.take(i as int)),
        decreases relevance@.len() - i,
    {
        assert(relevance@.take(i + 1).drop_last() =~= relevance@.take(i as int));
        if relevance[i] {
            let ghost before = r@.map_values(|p: (usize, usize)| (p.0 as nat, p.1 as nat));
            let seen = r.len() + 1;
            r.push((seen, i + 1));
            assert(r@.map_values(|p: (usize, usize)| (p.0 as nat, p.1 as nat)) =~= before.push((seen as nat, (i + 1) as nat)));
        }
        i = i + 1;
    }
    assert(relevance@.take(relevance@.len() as int) =~= relevance@);
    r
}

/// The faithfulness judge's prompt and output contract.
#[derive(Debug, Clone, Copy, PartialEq, Eq, Default)]
pub struct FaithfulnessJudgeContract;

impl FaithfulnessJudgeContract {
    pub fn new() -> (c: Self) {
        FaithfulnessJudgeContract
    }
}

} // verus!
