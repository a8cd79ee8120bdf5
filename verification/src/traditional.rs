//! The integer cores of the provider-free lexical metrics (exact match, ROUGE, BLEU, chrF,
//! string distances and quoted-span citations). Each function here returns the counts that a
//! score is the ratio of; turning counts into a floating-point score is left to the caller.
use vstd::prelude::*;

use crate::overlap::{
    clipped_overlap, edit_distance, hamming_distance, lcs_len, levenshtein_chars,
    longest_common_subsequence_len, multiset_overlap, padded_hamming, views,
};
use crate::text::{
    chars_of, is_whitespace, lower, lower_seq, lowercase_chars, split_pieces, string_of_range,
    trim, trim_chars, trim_class, words, is_ws, CharClass,
};

verus! {

/// The lexical form of one whitespace-separated word: stripped of leading and trailing
/// characters that are not ASCII letters or digits, then ASCII-lowercased.
pub open spec fn lexical_token(w: Seq<char>) -> Seq<char> {
    lower_seq(trim_class(w, CharClass::NonAlphanumeric))
}

/// The lexical forms of `ws` that are not empty, in order.
pub open spec fn nonempty_tokens(ws: Seq<Seq<char>>) -> Seq<Seq<char>>
    decreases ws.len(),
{
    if ws.len() == 0 {
        Seq::empty()
    } else {
        let rest = nonempty_tokens(ws.drop_last());
        let t = lexical_token(ws.last());
        if t.len() > 0 {
            rest.push(t)
        } else {
            rest
        }
    }
}

/// The whitespace-lowercase tokenizer: split on whitespace, strip non-alphanumeric edges,
/// lowercase, drop empty tokens.
pub open spec fn lexical_tokens(s: Seq<char>) -> Seq<Seq<char>> {
    nonempty_tokens(words(s))
}

/// The tokens of `text` under the whitespace-lowercase tokenizer.
pub fn whitespace_lowercase_tokens(text: &str) -> (out: Vec<Vec<char>>)
    ensures
        views(out@) == lexical_tokens(text@),
{
    let cs = chars_of(text);
    let ws = split_pieces(&cs, CharClass::Whitespace);
    let ghost wv = views(ws@);
    let mut out: Vec<Vec<char>> = Vec::new();
    let mut i: usize = 0;
    while i < ws.len()
        invariant
            wv == views(ws@),
            wv == words(text@),
            i <= ws@.len(),
            views(out@) == nonempty_tokens(wv.take(i as int)),
        decreases ws@.len() - i,
    {
        let trimmed = trim_chars(&ws[i], CharClass::NonAlphanumeric);
        let t = lowercase_chars(&trimmed);
        assert(wv.take(i + 1).drop_last() =~= wv.take(i as int));
        assert(wv.take(i + 1).last() == ws@[i as int]@);
        if t.len() > 0 {
            let ghost before = views(out@);
            out.push(t);
            assert(views(out@) =~= before.push(t@));
        }
        i = i + 1;
    }
    assert(wv.take(ws@.len() as int) =~= wv);
    out
}

/// The characters of `s` that are not whitespace, ASCII-lowercased.
pub open spec fn char_unigrams(s: Seq<char>) -> Seq<char>
    decreases s.len(),
{
    if s.len() == 0 {
        Seq::empty()
    } else if is_ws(s.last()) {
        char_unigrams(s.drop_last())
    } else {
        char_unigrams(s.drop_last()).push(lower(s.last()))
    }
}

/// The character-unigram tokenizer: every non-whitespace character, lowercased.
pub fn character_unigrams(text: &str) -> (out: Vec<char>)
    ensures
        out@ == char_unigrams(text@),
{
    let cs = chars_of(text);
    let mut out: Vec<char> = Vec::new();
    let mut i: usize = 0;
    while i < cs.len()
        invariant
            cs@ == text@,
            i <= cs@.len(),
            out@ == char_unigrams(cs@.take(i as int)),
        decreases cs@.len() - i,
    {
        assert(cs@.take(i + 1).drop_last() =~= cs@.take(i as int));
        let c = cs[i];
        if !is_whitespace(c) {
            out.push(crate::text::to_ascii_lower(c));
        }
        i = i + 1;
    }
    assert(cs@.take(cs@.len() as int) =~= cs@);
    out
}

/// Tokens joined by single spaces.
pub open spec fn join_tokens(ts: Seq<Seq<char>>) -> Seq<char>
    decreases ts.len(),
{
    if ts.len() == 0 {
        Seq::empty()
    } else if ts.len() == 1 {
        ts[0]
    } else {
        join_tokens(ts.drop_last()) + seq![' '] + ts.last()
    }
}

/// The contiguous `n`-grams of `ts`, each joined by spaces; empty when `n` is 0 or there are
/// fewer than `n` tokens.
pub open spec fn token_ngrams(ts: Seq<Seq<char>>, n: nat) -> Seq<Seq<char>> {
    if n == 0 || ts.len() < n {
        Seq::empty()
    } else {
        Seq::new((ts.len() - n + 1) as nat, |i: int| join_tokens(ts.subrange(i, i + n)))
    }
}

/// `tokens[start..end]` joined by spaces.
pub(crate) fn join_range(tokens: &Vec<Vec<char>>, start: usize, end: usize) -> (out: Vec<char>)
    requires
        start < end <= tokens@.len(),
    ensures
        out@ == join_tokens(views(tokens@).subrange(start as int, end as int)),
{
    let ghost ts = views(tokens@);
    let mut out: Vec<char> = tokens[start].clone();
    assert(ts.subrange(start as int, start + 1).len() == 1);
    let mut k: usize = start + 1;
    while k < end
        invariant
            ts == views(tokens@),
            start < k <= end <= tokens@.len(),
            out@ == join_tokens(ts.subrange(start as int, k as int)),
        decreases end - k,
    {
        let ghost before = out@;
        out.push(' ');
        let mut q: usize = 0;
        let w = &tokens[k];
        while q < w.len()
            invariant
                q <= w@.len(),
                out@ == before + seq![' '] + w@.take(q as int),
            decreases w@.len() - q,
        {
            out.push(w[q]);
            q = q + 1;
            assert(before + seq![' '] + w@.take(q as int) =~= (before + seq![' '] + w@.take(q - 1)).push(w@[q - 1]));
        }
        assert(w@.take(w@.len() as int) =~= w@);
        assert(ts.subrange(start as int, k + 1).drop_last() =~= ts.subrange(start as int, k as int));
        k = k + 1;
    }
    out
}

/// The contiguous `n`-grams of a token list, each joined by single spaces.
pub fn ngrams(tokens: &Vec<Vec<char>>, n: usize) -> (out: Vec<Vec<char>>)
    ensures
        views(out@) == token_ngrams(views(tokens@), n as nat),
{
    let ghost ts = views(tokens@);
    let mut out: Vec<Vec<char>> = Vec::new();
    if n == 0 || tokens.len() < n {
        assert(views(out@) =~= token_ngrams(ts, n as nat));
        return out;
    }
    let len = tokens.len();
    let count = len - n + 1;
    let mut i: usize = 0;
    while i < count
        invariant
            len == tokens@.len(),
            ts == views(tokens@),
            0 < n <= tokens@.len(),
            count == tokens@.len() - n + 1,
            i <= count,
            views(out@) =~= token_ngrams(ts, n as nat).take(i as int),
        decreases count - i,
    {
        let g = join_range(tokens, i, i + n);
        let ghost before = views(out@);
        out.push(g);
        assert(views(out@) =~= before.push(g@));
        i = i + 1;
    }
    assert(token_ngrams(ts, n as nat).take(count as int) =~= token_ngrams(ts, n as nat));
    out
}

/// The contiguous character `n`-grams of `s`.
pub open spec fn char_ngrams(s: Seq<char>, n: nat) -> Seq<Seq<char>> {
    if n == 0 || s.len() < n {
        Seq::empty()
    } else {
        Seq::new((s.len() - n + 1) as nat, |i: int| s.subrange(i, i + n))
    }
}

/// The contiguous character `n`-grams of a character list.
pub fn character_ngrams(chars: &Vec<char>, n: usize) -> (out: Vec<Vec<char>>)
    ensures
        views(out@) == char_ngrams(chars@, n as nat),
{
    let mut out: Vec<Vec<char>> = Vec::new();
    if n == 0 || chars.len() < n {
        assert(views(out@) =~= char_ngrams(chars@, n as nat));
        return out;
    }
    let len = chars.len();
    let count = len - n + 1;
    let mut i: usize = 0;
    while i < count
        invariant
            len == chars@.len(),
            0 < n <= chars@.len(),
            count == chars@.len() - n + 1,
            i <= count,
            views(out@) =~= char_ngrams(chars@, n as nat).take(i as int),
        decreases count - i,
    {
        let g = crate::text::slice_to_vec(chars, i, i + n);
        let ghost before = views(out@);
        out.push(g);
        assert(views(out@) =~= before.push(g@));
        i = i + 1;
    }
    assert(char_ngrams(chars@, n as nat).take(count as int) =~= char_ngrams(chars@, n as nat));
    out
}

/// The names of the two tokenizers the lexical metrics use.
pub fn lexical_tokenizer_assumptions() -> (out: Vec<&'static str>)
    ensures
        out@.len() == 2,
        out@[0]@ == "whitespace-lowercase"@,
        out@[1]@ == "character-unigram"@,
{
    let mut out: Vec<&'static str> = Vec::new();
    out.push("whitespace-lowercase");
    out.push("character-unigram");
    out
}

/// Whether two strings are equal after `str::trim`, the verdict of the exact-match metric
/// (two blank strings are equal).
pub fn exact_match_verdict(candidate: &str, reference: &str) -> (r: bool)
    ensures
        r == (trim(candidate@) == trim(reference@)),
{
    let c = crate::text::trim_str(candidate);
    let r = crate::text::trim_str(reference);
    crate::text::str_equal(c.as_str(), r.as_str())
}

/// The Levenshtein distance between the characters of two strings.
pub fn levenshtein_distance(left: &str, right: &str) -> (r: usize)
    ensures
        r == edit_distance(left@, right@),
{
    let a = chars_of(left);
    let b = chars_of(right);
    levenshtein_chars(&a, &b)
}

/// The padded Hamming distance between the characters of two strings.
pub fn hamming_distance_str(left: &str, right: &str) -> (r: usize)
    ensures
        r == padded_hamming(left@, right@),
{
    let a = chars_of(left);
    let b = chars_of(right);
    hamming_distance(&a, &b)
}

/// An overlap between a candidate and a reference: the ratio numerators and denominators of
/// precision (`overlap / candidate_count`) and recall (`overlap / reference_count`).
#[derive(Debug, Clone, Copy, PartialEq, Eq, Structural)]
pub struct OverlapCounts {
    pub overlap: usize,
    pub candidate_count: usize,
    pub reference_count: usize,
}

impl OverlapCounts {
    pub open spec fn as_triple(self) -> (nat, nat, nat) {
        (self.overlap as nat, self.candidate_count as nat, self.reference_count as nat)
    }
}

/// The clipped overlap of two item lists with their lengths.
pub open spec fn overlap_triple<T>(c: Seq<T>, r: Seq<T>) -> (nat, nat, nat) {
    (clipped_overlap(c, r), c.len(), r.len())
}

fn counts_of(c: &Vec<Vec<char>>, r: &Vec<Vec<char>>) -> (out: OverlapCounts)
    ensures
        out.as_triple() == overlap_triple(views(c@), views(r@)),
{
    let overlap = multiset_overlap(c, r);
    OverlapCounts { overlap, candidate_count: c.len(), reference_count: r.len() }
}

/// Which ROUGE variant to compute: unigram overlap, bigram overlap, or longest common
/// subsequence.
#[derive(Debug, Clone, Copy, PartialEq, Eq, Structural)]
pub enum RougeType {
    Rouge1,
    Rouge2,
    RougeL,
}

impl RougeType {
    pub fn as_str(self) -> (out: &'static str)
        ensures
            self == RougeType::Rouge1 ==> out@ == "rouge1"@,
            self == RougeType::Rouge2 ==> out@ == "rouge2"@,
            self == RougeType::RougeL ==> out@ == "rougeL"@,
    {
        match self {
            RougeType::Rouge1 => "rouge1",
            RougeType::Rouge2 => "rouge2",
            RougeType::RougeL => "rougeL",
        }
    }
}

impl Default for RougeType {
    fn default() -> (out: Self)
        ensures
            out == RougeType::RougeL,
    {
        RougeType::RougeL
    }
}

/// Which component of precision, recall and F-measure a ROUGE metric reports.
#[derive(Debug, Clone, Copy, PartialEq, Eq, Structural)]
pub enum RougeMode {
    Precision,
    Recall,
    FMeasure,
}

impl RougeMode {
    pub fn as_str(self) -> (out: &'static str)
        ensures
            self == RougeMode::Precision ==> out@ == "precision"@,
            self == RougeMode::Recall ==> out@ == "recall"@,
            self == RougeMode::FMeasure ==> out@ == "fmeasure"@,
    {
        match self {
            RougeMode::Precision => "precision",
            RougeMode::Recall => "recall",
            RougeMode::FMeasure => "fmeasure",
        }
    }
}

impl Default for RougeMode {
    fn default() -> (out: Self)
        ensures
            out == RougeMode::FMeasure,
    {
        RougeMode::FMeasure
    }
}

/// The ROUGE metric configuration: which variant, and which component it reports.
#[derive(Debug, Clone, Copy)]
pub struct RougeScore {
    pub rouge_type: RougeType,
    pub mode: RougeMode,
}

impl Default for RougeScore {
    fn default() -> (out: Self)
        ensures
            out.rouge_type == RougeType::RougeL,
            out.mode == RougeMode::FMeasure,
    {
        RougeScore { rouge_type: RougeType::RougeL, mode: RougeMode::FMeasure }
    }
}

/// The ROUGE counts of token lists `c` (candidate) and `r` (reference) under `t`.
pub open spec fn rouge_counts(t: RougeType, c: Seq<Seq<char>>, r: Seq<Seq<char>>) -> (nat, nat, nat) {
    match t {
        RougeType::Rouge1 => overlap_triple(token_ngrams(c, 1), token_ngrams(r, 1)),
        RougeType::Rouge2 => overlap_triple(token_ngrams(c, 2), token_ngrams(r, 2)),
        RougeType::RougeL => (lcs_len(c, r), c.len(), r.len()),
    }
}

impl RougeScore {
    pub fn new(rouge_type: RougeType, mode: RougeMode) -> (out: Self)
        ensures
            out.rouge_type == rouge_type,
            out.mode == mode,
    {
        RougeScore { rouge_type, mode }
    }

    pub fn with_rouge_type(self, rouge_type: RougeType) -> (out: Self)
        ensures
            out.rouge_type == rouge_type,
            out.mode == self.mode,
    {
        RougeScore { rouge_type, mode: self.mode }
    }

    pub fn with_mode(self, mode: RougeMode) -> (out: Self)
        ensures
            out.rouge_type == self.rouge_type,
            out.mode == mode,
    {
        RougeScore { rouge_type: self.rouge_type, mode }
    }

    /// The overlap and the two n-gram counts (for ROUGE-L, the longest common subsequence and
    /// the two token counts) of `candidate` against `reference` under the whitespace-lowercase
    /// tokenizer.
    pub fn overlap_counts(&self, candidate: &str, reference: &str) -> (out: OverlapCounts)
        ensures
            out.as_triple() == rouge_counts(
                self.rouge_type,
                lexical_tokens(candidate@),
                lexical_tokens(reference@),
            ),
    {
        let c = whitespace_lowercase_tokens(candidate);
        let r = whitespace_lowercase_tokens(reference);
        match self.rouge_type {
            RougeType::Rouge1 => {
                let cg = ngrams(&c, 1);
                let rg = ngrams(&r, 1);
                counts_of(&cg, &rg)
            },
            RougeType::Rouge2 => {
                let cg = ngrams(&c, 2);
                let rg = ngrams(&r, 2);
                counts_of(&cg, &rg)
            },
            RougeType::RougeL => {
                let overlap = longest_common_subsequence_len(&c, &r);
                OverlapCounts { overlap, candidate_count: c.len(), reference_count: r.len() }
            },
        }
    }
}

/// The ROUGE-L recall counts: the longest common subsequence of the token lists and the
/// reference token count.
pub fn rouge_l_recall_counts(candidate: &str, reference: &str) -> (out: OverlapCounts)
    ensures
        out.as_triple() == rouge_counts(
            RougeType::RougeL,
            lexical_tokens(candidate@),
            lexical_tokens(reference@),
        ),
{
    RougeScore::new(RougeType::RougeL, RougeMode::Recall).overlap_counts(candidate, reference)
}

/// The unigram BLEU counts: clipped token overlap and the two token counts.
pub fn bleu_unigram_counts(candidate: &str, reference: &str) -> (out: OverlapCounts)
    ensures
        out.as_triple() == overlap_triple(lexical_tokens(candidate@), lexical_tokens(reference@)),
{
    let c = whitespace_lowercase_tokens(candidate);
    let r = whitespace_lowercase_tokens(reference);
    counts_of(&c, &r)
}

/// The clipped n-gram overlap of `c` against `r` for each order `1..=max_n`.
pub open spec fn bleu_orders(c: Seq<Seq<char>>, r: Seq<Seq<char>>, max_n: nat) -> Seq<(nat, nat, nat)>
    decreases max_n,
{
    if max_n == 0 {
        Seq::empty()
    } else {
        bleu_orders(c, r, (max_n - 1) as nat).push(
            overlap_triple(token_ngrams(c, max_n), token_ngrams(r, max_n)),
        )
    }
}

/// The clipped n-gram counts for orders 1 to 4 of BLEU-4, under the whitespace-lowercase
/// tokenizer; entry `n - 1` holds order `n`.
pub fn bleu_order_counts(candidate: &str, reference: &str) -> (out: Vec<OverlapCounts>)
    ensures
        out@.map_values(|o: OverlapCounts| o.as_triple()) == bleu_orders(
            lexical_tokens(candidate@),
            lexical_tokens(reference@),
            4,
        ),
{
    let c = whitespace_lowercase_tokens(candidate);
    let r = whitespace_lowercase_tokens(reference);
    let ghost cv = lexical_tokens(candidate@);
    let ghost rv = lexical_tokens(reference@);
    let mut out: Vec<OverlapCounts> = Vec::new();
    let mut n: usize = 1;
    while n <= 4
        invariant
            views(c@) == cv,
            views(r@) == rv,
            1 <= n <= 5,
            out@.map_values(|o: OverlapCounts| o.as_triple()) == bleu_orders(cv, rv, (n - 1) as nat),
        decreases 5 - n,
    {
        let cg = ngrams(&c, n);
        let rg = ngrams(&r, n);
        let counts = counts_of(&cg, &rg);
        let ghost before = out@.map_values(|o: OverlapCounts| o.as_triple());
        out.push(counts);
        assert(out@.map_values(|o: OverlapCounts| o.as_triple()) =~= before.push(counts.as_triple()));
        n = n + 1;
    }
    out
}

/// The character-unigram counts of chrF: clipped character overlap and the two character
/// counts, whitespace ignored and ASCII lowercased.
pub fn chrf_unigram_counts(candidate: &str, reference: &str) -> (out: OverlapCounts)
    ensures
        out.as_triple() == overlap_triple(
            char_ngrams(char_unigrams(candidate@), 1),
            char_ngrams(char_unigrams(reference@), 1),
        ),
{
    let c = character_unigrams(candidate);
    let r = character_unigrams(reference);
    let cg = character_ngrams(&c, 1);
    let rg = character_ngrams(&r, 1);
    counts_of(&cg, &rg)
}

/// The character n-gram counts of chrF for orders `1..=max_n`, keeping only the orders at
/// which both sides have n-grams.
pub open spec fn chrf_orders(c: Seq<char>, r: Seq<char>, max_n: nat) -> Seq<(nat, nat, nat)>
    decreases max_n,
{
    if max_n == 0 {
        Seq::empty()
    } else {
        let rest = chrf_orders(c, r, (max_n - 1) as nat);
        let cg = char_ngrams(c, max_n);
        let rg = char_ngrams(r, max_n);
        if cg.len() == 0 || rg.len() == 0 {
            rest
        } else {
            rest.push(overlap_triple(cg, rg))
        }
    }
}

/// The chrF character n-gram counts for orders 1 to 6 that both sides reach.
pub fn chrf_order_counts(candidate: &str, reference: &str) -> (out: Vec<OverlapCounts>)
    ensures
        out@.map_values(|o: OverlapCounts| o.as_triple()) == chrf_orders(
            char_unigrams(candidate@),
            char_unigrams(reference@),
            6,
        ),
{
    let c = character_unigrams(candidate);
    let r = character_unigrams(reference);
    let mut out: Vec<OverlapCounts> = Vec::new();
    let mut n: usize = 1;
    while n <= 6
        invariant
            c@ == char_unigrams(candidate@),
            r@ == char_unigrams(reference@),
            1 <= n <= 7,
            out@.map_values(|o: OverlapCounts| o.as_triple()) == chrf_orders(c@, r@, (n - 1) as nat),
        decreases 7 - n,
    {
        let cg = character_ngrams(&c, n);
        let rg = character_ngrams(&r, n);
        if cg.len() > 0 && rg.len() > 0 {
            let counts = counts_of(&cg, &rg);
            let ghost before = out@.map_values(|o: OverlapCounts| o.as_triple());
            out.push(counts);
            assert(out@.map_values(|o: OverlapCounts| o.as_triple()) =~= before.push(counts.as_triple()));
        }
        n = n + 1;
    }
    out
}

/// A quoted span of a text: what stands between a pair of double quotes, with its byte and
/// character ranges (the quotes themselves excluded).
#[derive(Debug, Clone, PartialEq, Eq)]
pub struct QuotedSpan {
    pub text: String,
    pub byte_start: usize,
    pub byte_end: usize,
    pub char_start: usize,
    pub char_end: usize,
}

impl QuotedSpan {
    pub fn new(text: &str, byte_start: usize, byte_end: usize, char_start: usize, char_end: usize) -> (out: Self)
        ensures
            out.text@ == text@,
            out.byte_start == byte_start,
            out.byte_end == byte_end,
            out.char_start == char_start,
            out.char_end == char_end,
    {
        QuotedSpan { text: crate::text::to_owned_string(text), byte_start, byte_end, char_start, char_end }
    }
}

/// The number of bytes of the UTF-8 encoding of `c`.
pub open spec fn utf8_width(c: char) -> nat {
    let u = c as u32;
    if u < 0x80 {
        1
    } else if u < 0x800 {
        2
    } else if u < 0x10000 {
        3
    } else {
        4
    }
}

/// The byte offset of character `i` of `s` in its UTF-8 encoding.
pub open spec fn byte_offset(s: Seq<char>, i: int) -> nat
    decreases i,
{
    if i <= 0 {
        0
    } else {
        byte_offset(s, i - 1) + utf8_width(s[i - 1])
    }
}

proof fn lemma_byte_offset_monotone(s: Seq<char>, i: int, j: int)
    requires
        0 <= i <= j <= s.len(),
    ensures
        byte_offset(s, i) <= byte_offset(s, j),
    decreases j - i,
{
    if i < j {
        lemma_byte_offset_monotone(s, i, j - 1);
    }
}

fn char_utf8_width(c: char) -> (w: usize)
    ensures
        w == utf8_width(c),
{
    let u = c as u32;
    if u < 0x80 {
        1
    } else if u < 0x800 {
        2
    } else if u < 0x10000 {
        3
    } else {
        4
    }
}

/// The positions of the double quotes among the first `n` characters of `s`.
pub open spec fn quote_positions(s: Seq<char>, n: int) -> Seq<int>
    decreases n,
{
    if n <= 0 {
        Seq::empty()
    } else {
        let p = quote_positions(s, n - 1);
        if s[n - 1] == '"' {
            p.push(n - 1)
        } else {
            p
        }
    }
}

/// The span between quote `2k` and quote `2k + 1` of `s`, given the quote positions `q`:
/// its text, byte range and character range.
pub open spec fn span_at(s: Seq<char>, q: Seq<int>, k: int) -> (Seq<char>, nat, nat, nat, nat) {
    let open = q[2 * k];
    let close = q[2 * k + 1];
    (
        s.subrange(open + 1, close),
        byte_offset(s, open + 1),
        byte_offset(s, close),
        (open + 1) as nat,
        close as nat,
    )
}

/// The quoted spans of `s`: quotes are paired in order, and an unpaired last quote opens
/// nothing.
pub open spec fn quoted_spans(s: Seq<char>) -> Seq<(Seq<char>, nat, nat, nat, nat)> {
    let q = quote_positions(s, s.len() as int);
    Seq::new(q.len() / 2, |k: int| span_at(s, q, k))
}

pub open spec fn span_view(span: QuotedSpan) -> (Seq<char>, nat, nat, nat, nat) {
    (
        span.text@,
        span.byte_start as nat,
        span.byte_end as nat,
        span.char_start as nat,
        span.char_end as nat,
    )
}

proof fn lemma_quote_positions_bounds(s: Seq<char>, n: int)
    requires
        0 <= n <= s.len(),
    ensures
        forall|a: int| 0 <= a < quote_positions(s, n).len() ==> 0 <= #[trigger] quote_positions(s, n)[a] < n,
        forall|a: int, b: int|
            0 <= a < b < quote_positions(s, n).len() ==> #[trigger] quote_positions(s, n)[a]
                < #[trigger] quote_positions(s, n)[b],
    decreases n,
{
    if n > 0 {
        lemma_quote_positions_bounds(s, n - 1);
        let p = quote_positions(s, n - 1);
        let q = quote_positions(s, n);
        if s[n - 1] == '"' {
            assert(q == p.push(n - 1));
            assert forall|a: int| 0 <= a < q.len() implies 0 <= #[trigger] q[a] < n by {
                if a < p.len() {
                    assert(q[a] == p[a]);
                }
            }
            assert forall|a: int, b: int| 0 <= a < b < q.len() implies #[trigger] q[a] < #[trigger] q[b] by {
                assert(q[a] == p[a]);
                if b < p.len() {
                    assert(q[b] == p[b]);
                }
            }
        } else {
            assert(q == p);
        }
    }
}

/// The quoted spans of a text, with byte and character ranges.
pub fn extract_quoted_spans(text: &str) -> (out: Vec<QuotedSpan>)
    requires
        byte_offset(text@, text@.len() as int) <= usize::MAX,
    ensures
        out@.map_values(|sp: QuotedSpan| span_view(sp)) == quoted_spans(text@),
{
    let cs = chars_of(text);
    let ghost s = text@;
    let mut out: Vec<QuotedSpan> = Vec::new();
    let mut open: Option<(usize, usize)> = None;
    let mut byte: usize = 0;
    let mut i: usize = 0;
    while i < cs.len()
        invariant
            cs@ == s,
            s == text@,
            byte_offset(s, s.len() as int) <= usize::MAX,
            i <= s.len(),
            byte == byte_offset(s, i as int),
            ({
                let q = quote_positions(s, i as int);
                &&& out@.len() == q.len() / 2
                &&& forall|k: int| 0 <= k < out@.len() ==> span_view(#[trigger] out@[k]) == span_at(s, q, k)
                &&& (q.len() % 2 == 1) == open.is_some()
                &&& (open matches Some((b, c)) ==> c == q.last() + 1 && b == byte_offset(s, c as int))
            }),
        decreases s.len() - i,
    {
        let c = cs[i];
        let w = char_utf8_width(c);
        proof {
            lemma_byte_offset_monotone(s, i + 1, s.len() as int);
            lemma_quote_positions_bounds(s, i as int);
        }
        let ghost q = quote_positions(s, i as int);
        let ghost q2 = quote_positions(s, i + 1);
        if c == '"' {
            assert(q2 == q.push(i as int));
            match open {
                Some((byte_start, char_start)) => {
                    let piece = string_of_range(&cs, char_start, i);
                    let span = QuotedSpan { text: piece, byte_start, byte_end: byte, char_start, char_end: i };
                    let ghost before = out@;
                    out.push(span);
                    open = None;
                    assert forall|k: int| 0 <= k < out@.len() implies span_view(#[trigger] out@[k]) == span_at(s, q2, k) by {
                        if k < before.len() {
                            assert(out@[k] == before[k]);
                        } else {
                            assert(q2[2 * k] == q.last());
                            assert(q2[2 * k + 1] == i);
                        }
                    }
                },
                None => {
                    open = Some((byte + w, i + 1));
                    assert forall|k: int| 0 <= k < out@.len() implies span_view(#[trigger] out@[k]) == span_at(s, q2, k) by {
                        assert(q2[2 * k] == q[2 * k]);
                        assert(q2[2 * k + 1] == q[2 * k + 1]);
                    }
                },
            }
        } else {
            assert(q2 == q);
        }
        byte = byte + w;
        i = i + 1;
    }
    let ghost q = quote_positions(s, s.len() as int);
    assert(out@.map_values(|sp: QuotedSpan| span_view(sp)) =~= quoted_spans(s));
    out
}

/// The overlap of two quoted spans by character range: the size of the intersection and of
/// the covering range of both.
pub fn quoted_span_overlap_counts(candidate: &QuotedSpan, reference: &QuotedSpan) -> (out: (usize, usize))
    ensures
        ({
            let lo = if candidate.char_start >= reference.char_start { candidate.char_start } else { reference.char_start };
            let hi = if candidate.char_end <= reference.char_end { candidate.char_end } else { reference.char_end };
            out.0 == if hi >= lo { hi - lo } else { 0 }
        }),
        ({
            let lo = if candidate.char_start <= reference.char_start { candidate.char_start } else { reference.char_start };
            let hi = if candidate.char_end >= reference.char_end { candidate.char_end } else { reference.char_end };
            out.1 == if hi >= lo { hi - lo } else { 0 }
        }),
{
    let i_lo = if candidate.char_start >= reference.char_start { candidate.char_start } else { reference.char_start };
    let i_hi = if candidate.char_end <= reference.char_end { candidate.char_end } else { reference.char_end };
    let u_lo = if candidate.char_start <= reference.char_start { candidate.char_start } else { reference.char_start };
    let u_hi = if candidate.char_end >= reference.char_end { candidate.char_end } else { reference.char_end };
    (i_hi.saturating_sub(i_lo), u_hi.saturating_sub(u_lo))
}

/// Whether some source contains `t`.
pub open spec fn cited_in(t: Seq<char>, sources: Seq<Seq<char>>) -> bool {
    exists|j: int| 0 <= j < sources.len() && crate::text::contains_seq(sources[j], t)
}

/// How many of the spans (given by their texts) some source contains.
pub open spec fn cited_count(spans: Seq<Seq<char>>, sources: Seq<Seq<char>>) -> nat
    decreases spans.len(),
{
    if spans.len() == 0 {
        0
    } else {
        cited_count(spans.drop_last(), sources) + if cited_in(spans.last(), sources) {
            1nat
        } else {
            0nat
        }
    }
}

/// The quoted-citation coverage counts of an answer: how many of its quoted spans occur in
/// some source, and how many quoted spans it has.
pub fn quoted_citation_counts(answer: &str, sources: &Vec<String>) -> (out: (usize, usize))
    requires
        byte_offset(answer@, answer@.len() as int) <= usize::MAX,
    ensures
        out.1 == quoted_spans(answer@).len(),
        out.0 == cited_count(
            quoted_spans(answer@).map_values(|t: (Seq<char>, nat, nat, nat, nat)| t.0),
            sources@.map_values(|x: String| x@),
        ),
{
    let spans = extract_quoted_spans(answer);
    let ghost texts = quoted_spans(answer@).map_values(|t: (Seq<char>, nat, nat, nat, nat)| t.0);
    let ghost srcs = sources@.map_values(|x: String| x@);
    let mut matched: usize = 0;
    let mut k: usize = 0;
    assert(spans@.len() == quoted_spans(answer@).len()) by {
        assert(spans@.map_values(|sp: QuotedSpan| span_view(sp)).len() == spans@.len());
    }
    while k < spans.len()
        invariant
            spans@.map_values(|sp: QuotedSpan| span_view(sp)) == quoted_spans(answer@),
            texts == quoted_spans(answer@).map_values(|t: (Seq<char>, nat, nat, nat, nat)| t.0),
            srcs == sources@.map_values(|x: String| x@),
            k <= spans@.len(),
            matched <= k,
            matched == cited_count(texts.take(k as int), srcs),
        decreases spans@.len() - k,
    {
        assert(spans@.map_values(|sp: QuotedSpan| span_view(sp))[k as int] == span_view(spans@[k as int]));
        assert(texts[k as int] == spans@[k as int].text@);
        assert(texts.take(k + 1).drop_last() =~= texts.take(k as int));
        let mut found = false;
        let mut j: usize = 0;
        while j < sources.len()
            invariant
                srcs == sources@.map_values(|x: String| x@),
                k < spans@.len(),
                j <= sources@.len(),
                found == exists|q: int| 0 <= q < j && crate::text::contains_seq(srcs[q], spans@[k as int].text@),
            decreases sources@.len() - j,
        {
            assert(srcs[j as int] == sources@[j as int]@);
            if crate::text::str_contains(sources[j].as_str(), spans[k].text.as_str()) {
                found = true;
            }
            j = j + 1;
        }
        if found {
            matched = matched + 1;
        }
        k = k + 1;
    }
    assert(texts.take(spans@.len() as int) =~= texts);
    (matched, spans.len())
}


/// The first source, from position `j` on, that contains `t`.
pub open spec fn first_citing(t: Seq<char>, sources: Seq<Seq<char>>, j: int) -> Option<nat>
    decreases sources.len() - j,
{
    if j < 0 || j >= sources.len() {
        None
    } else if crate::text::contains_seq(sources[j], t) {
        Some(j as nat)
    } else {
        first_citing(t, sources, j + 1)
    }
}

/// The evidence of quoted-citation coverage: for each quoted span (given by its text) that some
/// source contains, in order, the span with the source `source[<index>]` of the first such
/// source.
pub open spec fn citation_evidence(spans: Seq<Seq<char>>, sources: Seq<Seq<char>>) -> Seq<(Seq<char>, Seq<char>)>
    decreases spans.len(),
{
    if spans.len() == 0 {
        Seq::empty()
    } else {
        let rest = citation_evidence(spans.drop_last(), sources);
        match first_citing(spans.last(), sources, 0) {
            Some(j) => rest.push((crate::rag::indexed_source("source["@, j), spans.last())),
            None => rest,
        }
    }
}

/// The evidence of quoted-citation coverage: the first source that contains each quoted span.
pub fn quoted_citation_evidence(answer: &str, sources: &Vec<String>) -> (out: Vec<crate::metric_base::MetricEvidence>)
    requires
        byte_offset(answer@, answer@.len() as int) <= usize::MAX,
    ensures
        crate::rag::evidence_views(out@) == citation_evidence(
            quoted_spans(answer@).map_values(|t: (Seq<char>, nat, nat, nat, nat)| t.0),
            sources@.map_values(|x: String| x@),
        ),
{
    let spans = extract_quoted_spans(answer);
    let ghost texts = quoted_spans(answer@).map_values(|t: (Seq<char>, nat, nat, nat, nat)| t.0);
    let ghost srcs = sources@.map_values(|x: String| x@);
    let mut out: Vec<crate::metric_base::MetricEvidence> = Vec::new();
    let mut k: usize = 0;
    assert(spans@.len() == quoted_spans(answer@).len()) by {
        assert(spans@.map_values(|sp: QuotedSpan| span_view(sp)).len() == spans@.len());
    }
    while k < spans.len()
        invariant
            spans@.map_values(|sp: QuotedSpan| span_view(sp)) == quoted_spans(answer@),
            texts == quoted_spans(answer@).map_values(|t: (Seq<char>, nat, nat, nat, nat)| t.0),
            srcs == sources@.map_values(|x: String| x@),
            k <= spans@.len(),
            crate::rag::evidence_views(out@) == citation_evidence(texts.take(k as int), srcs),
        decreases spans@.len() - k,
    {
        assert(spans@.map_values(|sp: QuotedSpan| span_view(sp))[k as int] == span_view(spans@[k as int]));
        assert(texts[k as int] == spans@[k as int].text@);
        assert(texts.take(k + 1).drop_last() =~= texts.take(k as int));
        assert(texts.take(k + 1).last() == texts[k as int]);
        let ghost t = spans@[k as int].text@;
        let mut found: Option<usize> = None;
        let mut j: usize = 0;
        while j < sources.len() && found.is_none()
            invariant
                srcs == sources@.map_values(|x: String| x@),
                k < spans@.len(),
                t == spans@[k as int].text@,
                j <= sources@.len(),
                match found {
                    None => first_citing(t, srcs, 0) == first_citing(t, srcs, j as int),
                    Some(x) => x < sources@.len() && first_citing(t, srcs, 0) == Some(x as nat),
                },
            decreases sources@.len() - j, if found is None { 1int } else { 0int },
        {
            assert(srcs[j as int] == sources@[j as int]@);
            if crate::text::str_contains(sources[j].as_str(), spans[k].text.as_str()) {
                found = Some(j);
            } else {
                j = j + 1;
            }
        }
        let ghost before = crate::rag::evidence_views(out@);
        match found {
            Some(x) => {
                let mut source = String::new();
                crate::text::push_str(&mut source, "source[");
                crate::text::push_decimal(&mut source, x);
                crate::text::push_str(&mut source, "]");
                let e = crate::metric_base::MetricEvidence { source, text: spans[k].text.clone() };
                assert(e.text@ == t);
                out.push(e);
                assert(crate::rag::evidence_views(out@) =~= before.push(crate::rag::evidence_view(e)));
            },
            None => {
                assert(first_citing(t, srcs, j as int) is None);
            },
        }
        k = k + 1;
    }
    assert(texts.take(spans@.len() as int) =~= texts);
    out
}

} // verus!
