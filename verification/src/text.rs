//! Character-level text utilities shared by the lexical metrics, the dataset code and the
//! reporting helpers. Every function here works on the character sequence of a string
//! (`s@`), so the contracts speak of `Seq<char>`.
use vstd::prelude::*;

verus! {

/// Appends one character to a string (`String::push`).
#[verifier::external_body]
pub(crate) fn push_char(s: &mut String, c: char)
    ensures
        final(s)@ == old(s)@.push(c),
{
    s.push(c);
}

/// Appends a string slice to a string (`String::push_str`).
#[verifier::external_body]
pub(crate) fn push_str(s: &mut String, t: &str)
    ensures
        final(s)@ == old(s)@ + t@,
{
    s.push_str(t);
}

/// An owned copy of a string slice.
pub(crate) fn to_owned_string(s: &str) -> (out: String)
    ensures
        out@ == s@,
{
    s.to_owned()
}

/// The characters of a string slice, in order.
pub fn chars_of(s: &str) -> (out: Vec<char>)
    ensures
        out@ == s@,
{
    let mut out: Vec<char> = Vec::new();
    for c in it: s.chars()
        invariant
            out@ == it.seq().take(it.index() as int),
    {
        out.push(c);
    }
    out
}

/// A string made of the given characters.
pub fn string_of(chars: &Vec<char>) -> (out: String)
    ensures
        out@ == chars@,
{
    let mut out = String::new();
    let mut i: usize = 0;
    while i < chars.len()
        invariant
            i <= chars@.len(),
            out@ == chars@.take(i as int),
        decreases chars@.len() - i,
    {
        push_char(&mut out, chars[i]);
        i = i + 1;
        assert(chars@.take(i as int) =~= chars@.take(i - 1).push(chars@[i - 1]));
    }
    assert(chars@.take(chars@.len() as int) =~= chars@);
    out
}

/// A string made of the characters `chars[start..end]`.
pub fn string_of_range(chars: &Vec<char>, start: usize, end: usize) -> (out: String)
    requires
        start <= end <= chars@.len(),
    ensures
        out@ == chars@.subrange(start as int, end as int),
{
    let mut out = String::new();
    let mut i: usize = start;
    while i < end
        invariant
            start <= i <= end <= chars@.len(),
            out@ == chars@.subrange(start as int, i as int),
        decreases end - i,
    {
        push_char(&mut out, chars[i]);
        i = i + 1;
        assert(chars@.subrange(start as int, i as int) =~= chars@.subrange(
            start as int,
            i - 1,
        ).push(chars@[i - 1]));
    }
    out
}

/// Whether a character has the Unicode `White_Space` property (what `char::is_whitespace`
/// tests).
pub open spec fn is_ws(c: char) -> bool {
    let u = c as u32;
    ||| 0x9 <= u <= 0xD
    ||| u == 0x20
    ||| u == 0x85
    ||| u == 0xA0
    ||| u == 0x1680
    ||| 0x2000 <= u <= 0x200A
    ||| u == 0x2028
    ||| u == 0x2029
    ||| u == 0x202F
    ||| u == 0x205F
    ||| u == 0x3000
}

pub fn is_whitespace(c: char) -> (b: bool)
    ensures
        b == is_ws(c),
{
    let u = c as u32;
    (0x9 <= u && u <= 0xD) || u == 0x20 || u == 0x85 || u == 0xA0 || u == 0x1680 || (0x2000
        <= u && u <= 0x200A) || u == 0x2028 || u == 0x2029 || u == 0x202F || u == 0x205F || u
        == 0x3000
}

/// ASCII letters and digits.
pub open spec fn is_alnum(c: char) -> bool {
    ('0' <= c && c <= '9') || ('a' <= c && c <= 'z') || ('A' <= c && c <= 'Z')
}

pub fn is_ascii_alphanumeric(c: char) -> (b: bool)
    ensures
        b == is_alnum(c),
{
    ('0' <= c && c <= '9') || ('a' <= c && c <= 'z') || ('A' <= c && c <= 'Z')
}

pub open spec fn is_upper(c: char) -> bool {
    'A' <= c && c <= 'Z'
}

pub open spec fn is_alpha(c: char) -> bool {
    ('a' <= c && c <= 'z') || ('A' <= c && c <= 'Z')
}

/// ASCII lower-casing of one character (`char::to_ascii_lowercase`).
pub open spec fn lower(c: char) -> char {
    if 'A' <= c && c <= 'Z' {
        ((c as u32) + 32) as char
    } else {
        c
    }
}

pub fn to_ascii_lower(c: char) -> (out: char)
    ensures
        out == lower(c),
{
    if 'A' <= c && c <= 'Z' {
        let u: u32 = (c as u32) + 32;
        assert(0x61 <= u <= 0x7a);
        char_from_ascii(u)
    } else {
        c
    }
}

/// The character with an ASCII code.
pub(crate) fn char_from_ascii(u: u32) -> (c: char)
    requires
        u < 0x80,
    ensures
        c as u32 == u,
{
    let b: u8 = u as u8;
    b as char
}

/// ASCII lower-casing of a whole sequence (`str::to_ascii_lowercase`).
pub open spec fn lower_seq(s: Seq<char>) -> Seq<char> {
    s.map_values(|c: char| lower(c))
}

pub fn lowercase_chars(s: &Vec<char>) -> (out: Vec<char>)
    ensures
        out@ == lower_seq(s@),
{
    let mut out: Vec<char> = Vec::new();
    let mut i: usize = 0;
    while i < s.len()
        invariant
            i <= s@.len(),
            out@ == lower_seq(s@.take(i as int)),
        decreases s@.len() - i,
    {
        let c = to_ascii_lower(s[i]);
        out.push(c);
        i = i + 1;
        assert(lower_seq(s@.take(i as int)) =~= lower_seq(s@.take(i - 1)).push(lower(s@[i - 1])));
    }
    assert(s@.take(s@.len() as int) =~= s@);
    out
}

/// The character classes that the splitters and trimmers of this crate work with.
#[derive(Clone, Copy, PartialEq, Eq, Structural, Debug)]
pub enum CharClass {
    /// `char::is_whitespace`.
    Whitespace,
    /// Anything that is not an ASCII letter or digit.
    NonAlphanumeric,
    /// The claim terminators `.`, `?`, `!` and `;`.
    ClaimPunctuation,
    /// The pipe character `|`.
    Pipe,
    /// The slash `/`.
    Slash,
    /// The line feed `\n`.
    Newline,
    /// The double quote `"`.
    DoubleQuote,
    /// The single quote `'`.
    SingleQuote,
    /// The semicolon `;`.
    Semicolon,
}

pub open spec fn in_class(k: CharClass, c: char) -> bool {
    match k {
        CharClass::Whitespace => is_ws(c),
        CharClass::NonAlphanumeric => !is_alnum(c),
        CharClass::ClaimPunctuation => c == '.' || c == '?' || c == '!' || c == ';',
        CharClass::Pipe => c == '|',
        CharClass::Slash => c == '/',
        CharClass::Newline => c == '\n',
        CharClass::DoubleQuote => c == '"',
        CharClass::SingleQuote => c == '\'',
        CharClass::Semicolon => c == ';',
    }
}

pub fn class_contains(k: CharClass, c: char) -> (b: bool)
    ensures
        b == in_class(k, c),
{
    match k {
        CharClass::Whitespace => is_whitespace(c),
        CharClass::NonAlphanumeric => !is_ascii_alphanumeric(c),
        CharClass::ClaimPunctuation => c == '.' || c == '?' || c == '!' || c == ';',
        CharClass::Pipe => c == '|',
        CharClass::Slash => c == '/',
        CharClass::Newline => c == '\n',
        CharClass::DoubleQuote => c == '"',
        CharClass::SingleQuote => c == '\'',
        CharClass::Semicolon => c == ';',
    }
}

/// `s` without its leading characters of class `k`.
pub open spec fn strip_start(s: Seq<char>, k: CharClass) -> Seq<char>
    decreases s.len(),
{
    if s.len() > 0 && in_class(k, s[0]) {
        strip_start(s.drop_first(), k)
    } else {
        s
    }
}

/// `s` without its trailing characters of class `k`.
pub open spec fn strip_end(s: Seq<char>, k: CharClass) -> Seq<char>
    decreases s.len(),
{
    if s.len() > 0 && in_class(k, s.last()) {
        strip_end(s.drop_last(), k)
    } else {
        s
    }
}

/// `s` without its leading and trailing characters of class `k` (`str::trim` for whitespace,
/// `str::trim_matches` for the other classes).
pub open spec fn trim_class(s: Seq<char>, k: CharClass) -> Seq<char> {
    strip_end(strip_start(s, k), k)
}

/// `str::trim`.
pub open spec fn trim(s: Seq<char>) -> Seq<char> {
    trim_class(s, CharClass::Whitespace)
}

proof fn lemma_strip_start_skip(s: Seq<char>, k: CharClass, i: int)
    requires
        0 <= i <= s.len(),
        forall|j: int| 0 <= j < i ==> in_class(k, #[trigger] s[j]),
    ensures
        strip_start(s, k) == strip_start(s.skip(i), k),
    decreases i,
{
    if i > 0 {
        assert(s.drop_first().skip(i - 1) =~= s.skip(i));
        lemma_strip_start_skip(s.drop_first(), k, i - 1);
    } else {
        assert(s.skip(0) =~= s);
    }
}

proof fn lemma_strip_end_take(s: Seq<char>, k: CharClass, j: int)
    requires
        0 <= j <= s.len(),
        forall|m: int| j <= m < s.len() ==> in_class(k, #[trigger] s[m]),
    ensures
        strip_end(s, k) == strip_end(s.take(j), k),
    decreases s.len() - j,
{
    if j < s.len() {
        assert(s.drop_last().take(j) =~= s.take(j));
        lemma_strip_end_take(s.drop_last(), k, j);
    } else {
        assert(s.take(j) =~= s);
    }
}

/// The bounds `(start, end)` of `trim_class(s[lo..hi], k)` inside `s`.
pub fn trim_bounds(s: &Vec<char>, lo: usize, hi: usize, k: CharClass) -> (r: (usize, usize))
    requires
        lo <= hi <= s@.len(),
    ensures
        lo <= r.0 <= r.1 <= hi,
        s@.subrange(r.0 as int, r.1 as int) == trim_class(s@.subrange(lo as int, hi as int), k),
{
    let ghost sub = s@.subrange(lo as int, hi as int);
    let mut i: usize = lo;
    while i < hi && class_contains(k, s[i])
        invariant
            lo <= i <= hi <= s@.len(),
            sub == s@.subrange(lo as int, hi as int),
            forall|j: int| lo <= j < i ==> in_class(k, #[trigger] s@[j]),
        decreases hi - i,
    {
        i = i + 1;
    }
    proof {
        assert forall|j: int| 0 <= j < i - lo implies in_class(k, #[trigger] sub[j]) by {
            assert(sub[j] == s@[lo + j]);
        }
        lemma_strip_start_skip(sub, k, i - lo);
        assert(sub.skip(i - lo) =~= s@.subrange(i as int, hi as int));
        let t = s@.subrange(i as int, hi as int);
        if t.len() > 0 {
            assert(t[0] == s@[i as int]);
        }
        assert(strip_start(t, k) == t);
    }
    let mut j: usize = hi;
    while j > i && class_contains(k, s[j - 1])
        invariant
            lo <= i <= j <= hi <= s@.len(),
            forall|m: int| j <= m < hi ==> in_class(k, #[trigger] s@[m]),
        decreases j - i,
    {
        j = j - 1;
    }
    proof {
        let t = s@.subrange(i as int, hi as int);
        assert forall|m: int| j - i <= m < t.len() implies in_class(k, #[trigger] t[m]) by {
            assert(t[m] == s@[i + m]);
        }
        lemma_strip_end_take(t, k, j - i);
        let u = t.take(j - i);
        assert(u =~= s@.subrange(i as int, j as int));
        if u.len() > 0 {
            assert(u.last() == s@[j - 1]);
        }
        assert(strip_end(u, k) == u);
    }
    (i, j)
}

/// `trim_class(s, k)` as a new vector.
pub fn trim_chars(s: &Vec<char>, k: CharClass) -> (out: Vec<char>)
    ensures
        out@ == trim_class(s@, k),
{
    let (a, b) = trim_bounds(s, 0, s.len(), k);
    assert(s@.subrange(0, s@.len() as int) =~= s@);
    slice_to_vec(s, a, b)
}

/// `str::trim` of a string slice.
pub fn trim_str(s: &str) -> (out: String)
    ensures
        out@ == trim(s@),
{
    let cs = chars_of(s);
    let t = trim_chars(&cs, CharClass::Whitespace);
    string_of(&t)
}

/// Whether a string has no characters.
pub fn str_is_empty(s: &str) -> (b: bool)
    ensures
        b == (s@.len() == 0),
{
    let cs = chars_of(s);
    cs.len() == 0
}

/// Whether `str::trim` of `s` is empty.
pub fn is_blank(s: &str) -> (b: bool)
    ensures
        b == (trim(s@).len() == 0),
{
    let cs = chars_of(s);
    let (a, b) = trim_bounds(&cs, 0, cs.len(), CharClass::Whitespace);
    assert(cs@.subrange(0, cs@.len() as int) =~= cs@);
    a == b
}

/// `s[start..end]` as a new vector.
pub fn slice_to_vec<T: Copy>(s: &Vec<T>, start: usize, end: usize) -> (out: Vec<T>)
    requires
        start <= end <= s@.len(),
    ensures
        out@ == s@.subrange(start as int, end as int),
{
    let mut out: Vec<T> = Vec::new();
    let mut i: usize = start;
    while i < end
        invariant
            start <= i <= end <= s@.len(),
            out@ == s@.subrange(start as int, i as int),
        decreases end - i,
    {
        out.push(s[i]);
        i = i + 1;
        assert(s@.subrange(start as int, i as int) =~= s@.subrange(start as int, i - 1).push(
            s@[i - 1],
        ));
    }
    out
}

/// Whether two character sequences are equal.
pub fn chars_equal(a: &Vec<char>, b: &Vec<char>) -> (r: bool)
    ensures
        r == (a@ == b@),
{
    if a.len() != b.len() {
        return false;
    }
    let mut i: usize = 0;
    while i < a.len()
        invariant
            a@.len() == b@.len(),
            i <= a@.len(),
            forall|j: int| 0 <= j < i ==> a@[j] == b@[j],
        decreases a@.len() - i,
    {
        if a[i] != b[i] {
            return false;
        }
        i = i + 1;
    }
    assert(a@ =~= b@);
    true
}

/// Whether two strings are equal.
pub fn str_equal(a: &str, b: &str) -> (r: bool)
    ensures
        r == (a@ == b@),
{
    let x = chars_of(a);
    let y = chars_of(b);
    chars_equal(&x, &y)
}

/// Whether `sub` occurs in `s` at position `i`.
pub open spec fn occurs_at(s: Seq<char>, sub: Seq<char>, i: int) -> bool {
    0 <= i && i + sub.len() <= s.len() && s.subrange(i, i + sub.len()) == sub
}

/// Whether `sub` is a substring of `s` (`str::contains` with a string pattern).
pub open spec fn contains_seq(s: Seq<char>, sub: Seq<char>) -> bool {
    exists|i: int| occurs_at(s, sub, i)
}

fn matches_at(s: &Vec<char>, sub: &Vec<char>, i: usize) -> (r: bool)
    requires
        i + sub@.len() <= s@.len(),
    ensures
        r == occurs_at(s@, sub@, i as int),
{
    let mut j: usize = 0;
    while j < sub.len()
        invariant
            i + sub@.len() <= s@.len(),
            s@.len() == s.len(),
            j <= sub@.len(),
            forall|m: int| 0 <= m < j ==> s@[i + m] == sub@[m],
        decreases sub@.len() - j,
    {
        let at: usize = i + j;
        if s[at] != sub[j] {
            assert(s@.subrange(i as int, i + sub@.len())[j as int] != sub@[j as int]);
            return false;
        }
        j = j + 1;
    }
    assert(s@.subrange(i as int, i + sub@.len()) =~= sub@);
    true
}

/// Whether `sub` occurs in `s`.
pub fn contains_chars(s: &Vec<char>, sub: &Vec<char>) -> (r: bool)
    ensures
        r == contains_seq(s@, sub@),
{
    if sub.len() > s.len() {
        assert forall|i: int| !occurs_at(s@, sub@, i) by {}
        return false;
    }
    if sub.len() == 0 {
        assert(s@.subrange(0, 0) =~= sub@);
        assert(occurs_at(s@, sub@, 0));
        return true;
    }
    let mut i: usize = 0;
    let last: usize = s.len() - sub.len();
    while i <= last
        invariant
            sub@.len() <= s@.len(),
            last == s@.len() - sub@.len(),
            sub@.len() > 0,
            s@.len() == s.len(),
            i <= last + 1,
            forall|j: int| 0 <= j < i ==> !occurs_at(s@, sub@, j),
        decreases last + 1 - i,
    {
        if matches_at(s, sub, i) {
            return true;
        }
        i = i + 1;
    }
    assert forall|j: int| !occurs_at(s@, sub@, j) by {
        if 0 <= j < i {
        }
    }
    false
}

/// Whether `sub` occurs in `s` (`str::contains`).
pub fn str_contains(s: &str, sub: &str) -> (r: bool)
    ensures
        r == contains_seq(s@, sub@),
{
    let a = chars_of(s);
    let b = chars_of(sub);
    contains_chars(&a, &b)
}

/// Whether `s` starts with `prefix`.
pub fn starts_with_chars(s: &Vec<char>, prefix: &Vec<char>) -> (r: bool)
    ensures
        r == (prefix@.len() <= s@.len() && s@.take(prefix@.len() as int) == prefix@),
{
    if prefix.len() > s.len() {
        return false;
    }
    let r = matches_at(s, prefix, 0);
    assert(s@.subrange(0, prefix@.len() as int) =~= s@.take(prefix@.len() as int));
    r
}

/// The pieces of `s` between characters of class `k`, keeping only non-empty pieces.
/// `cur` is the piece collected so far.
pub open spec fn pieces_from(s: Seq<char>, k: CharClass, cur: Seq<char>) -> Seq<Seq<char>>
    decreases s.len(),
{
    if s.len() == 0 {
        if cur.len() == 0 {
            Seq::empty()
        } else {
            seq![cur]
        }
    } else if in_class(k, s[0]) {
        if cur.len() == 0 {
            pieces_from(s.drop_first(), k, Seq::empty())
        } else {
            seq![cur] + pieces_from(s.drop_first(), k, Seq::empty())
        }
    } else {
        pieces_from(s.drop_first(), k, cur.push(s[0]))
    }
}

/// The non-empty pieces of `s` between characters of class `k` (`str::split_whitespace` for
/// whitespace).
pub open spec fn pieces(s: Seq<char>, k: CharClass) -> Seq<Seq<char>> {
    pieces_from(s, k, Seq::empty())
}

/// The whitespace-separated words of `s` (`str::split_whitespace`).
pub open spec fn words(s: Seq<char>) -> Seq<Seq<char>> {
    pieces(s, CharClass::Whitespace)
}

/// The non-empty pieces of `s` between characters of class `k`, as character vectors.
pub fn split_pieces(s: &Vec<char>, k: CharClass) -> (out: Vec<Vec<char>>)
    ensures
        out@.map_values(|v: Vec<char>| v@) == pieces(s@, k),
{
    let mut out: Vec<Vec<char>> = Vec::new();
    let mut cur: Vec<char> = Vec::new();
    let mut i: usize = 0;
    assert(s@.skip(0) =~= s@);
    assert(out@.map_values(|v: Vec<char>| v@) =~= Seq::<Seq<char>>::empty());
    assert(cur@ =~= Seq::<char>::empty());
    while i < s.len()
        invariant
            i <= s@.len(),
            out@.map_values(|v: Vec<char>| v@) + pieces_from(s@.skip(i as int), k, cur@)
                == pieces(s@, k),
        decreases s@.len() - i,
    {
        let ghost before = out@.map_values(|v: Vec<char>| v@);
        let ghost rest = s@.skip(i as int);
        assert(rest.drop_first() =~= s@.skip(i + 1));
        let c = s[i];
        if class_contains(k, c) {
            if cur.len() > 0 {
                let piece = cur;
                cur = Vec::new();
                out.push(piece);
                assert(out@.map_values(|v: Vec<char>| v@) =~= before.push(piece@));
                assert(before.push(piece@) + pieces_from(s@.skip(i + 1), k, cur@) =~= before + (
                seq![piece@] + pieces_from(s@.skip(i + 1), k, Seq::empty())));
            } else {
                assert(cur@ =~= Seq::<char>::empty());
            }
        } else {
            cur.push(c);
        }
        i = i + 1;
    }
    let ghost before = out@.map_values(|v: Vec<char>| v@);
    assert(s@.skip(i as int) =~= Seq::<char>::empty());
    if cur.len() > 0 {
        out.push(cur);
        assert(out@.map_values(|v: Vec<char>| v@) =~= before + pieces_from(
            Seq::<char>::empty(),
            k,
            cur@,
        ));
    } else {
        assert(out@.map_values(|v: Vec<char>| v@) =~= before + pieces_from(
            Seq::<char>::empty(),
            k,
            cur@,
        ));
    }
    out
}

/// Lexicographic order on character sequences by code point, which is the order of Rust
/// `String`s (UTF-8 byte order agrees with code-point order).
pub open spec fn seq_lt(a: Seq<char>, b: Seq<char>) -> bool
    decreases a.len(),
{
    if a.len() == 0 {
        b.len() > 0
    } else if b.len() == 0 {
        false
    } else if a[0] != b[0] {
        a[0] < b[0]
    } else {
        seq_lt(a.drop_first(), b.drop_first())
    }
}

/// The outcome of a three-way comparison.
#[derive(Clone, Copy, PartialEq, Eq, Structural, Debug)]
pub enum Cmp {
    Less,
    Equal,
    Greater,
}

pub proof fn lemma_seq_lt_irreflexive(a: Seq<char>)
    ensures
        !seq_lt(a, a),
    decreases a.len(),
{
    if a.len() > 0 {
        lemma_seq_lt_irreflexive(a.drop_first());
    }
}

pub proof fn lemma_seq_lt_asymmetric(a: Seq<char>, b: Seq<char>)
    ensures
        seq_lt(a, b) ==> !seq_lt(b, a),
    decreases a.len(),
{
    if a.len() > 0 && b.len() > 0 && a[0] == b[0] {
        lemma_seq_lt_asymmetric(a.drop_first(), b.drop_first());
    }
}

pub proof fn lemma_seq_lt_transitive(a: Seq<char>, b: Seq<char>, c: Seq<char>)
    requires
        seq_lt(a, b),
        seq_lt(b, c),
    ensures
        seq_lt(a, c),
    decreases a.len(),
{
    if a.len() > 0 && b.len() > 0 && c.len() > 0 && a[0] == b[0] && b[0] == c[0] {
        lemma_seq_lt_transitive(a.drop_first(), b.drop_first(), c.drop_first());
    }
}

pub proof fn lemma_seq_lt_total(a: Seq<char>, b: Seq<char>)
    ensures
        seq_lt(a, b) || seq_lt(b, a) || a == b,
    decreases a.len(),
{
    if a.len() > 0 && b.len() > 0 {
        if a[0] == b[0] {
            lemma_seq_lt_total(a.drop_first(), b.drop_first());
            if a.drop_first() == b.drop_first() {
                assert(a =~= seq![a[0]] + a.drop_first());
                assert(b =~= seq![b[0]] + b.drop_first());
            }
        }
    } else if a.len() == 0 && b.len() == 0 {
        assert(a =~= b);
    }
}

/// Three-way comparison of two character sequences in [`seq_lt`] order.
pub fn compare_chars(a: &Vec<char>, b: &Vec<char>) -> (r: Cmp)
    ensures
        r == Cmp::Less <==> seq_lt(a@, b@),
        r == Cmp::Equal <==> a@ == b@,
        r == Cmp::Greater <==> seq_lt(b@, a@),
{
    proof {
        lemma_seq_lt_total(a@, b@);
        lemma_seq_lt_asymmetric(a@, b@);
        lemma_seq_lt_irreflexive(a@);
    }
    let mut i: usize = 0;
    assert(a@.skip(0) =~= a@);
    assert(b@.skip(0) =~= b@);
    assert(a@.take(0) =~= b@.take(0));
    while i < a.len() && i < b.len()
        invariant
            i <= a@.len(),
            i <= b@.len(),
            a@.take(i as int) == b@.take(i as int),
            seq_lt(a@, b@) == seq_lt(a@.skip(i as int), b@.skip(i as int)),
            seq_lt(b@, a@) == seq_lt(b@.skip(i as int), a@.skip(i as int)),
        decreases a@.len() - i,
    {
        assert(a@.skip(i as int)[0] == a@[i as int]);
        assert(b@.skip(i as int)[0] == b@[i as int]);
        if a[i] != b[i] {
            if a[i] < b[i] {
                return Cmp::Less;
            } else {
                return Cmp::Greater;
            }
        }
        assert(a@.skip(i as int).drop_first() =~= a@.skip(i + 1));
        assert(b@.skip(i as int).drop_first() =~= b@.skip(i + 1));
        assert(a@.take(i + 1) =~= a@.take(i as int).push(a@[i as int]));
        assert(b@.take(i + 1) =~= b@.take(i as int).push(b@[i as int]));
        i = i + 1;
    }
    if a.len() == b.len() {
        assert(a@ =~= a@.take(i as int));
        assert(b@ =~= b@.take(i as int));
        Cmp::Equal
    } else if a.len() < b.len() {
        assert(a@.skip(i as int).len() == 0);
        Cmp::Less
    } else {
        assert(b@.skip(i as int).len() == 0);
        Cmp::Greater
    }
}

} // verus!

verus! {

/// The decimal digit character for `d < 10`.
pub open spec fn digit_char(d: nat) -> char {
    if d == 0 {
        '0'
    } else if d == 1 {
        '1'
    } else if d == 2 {
        '2'
    } else if d == 3 {
        '3'
    } else if d == 4 {
        '4'
    } else if d == 5 {
        '5'
    } else if d == 6 {
        '6'
    } else if d == 7 {
        '7'
    } else if d == 8 {
        '8'
    } else {
        '9'
    }
}

/// The decimal representation of a natural number, without leading zeros.
pub open spec fn decimal(n: nat) -> Seq<char>
    decreases n,
{
    if n < 10 {
        seq![digit_char(n)]
    } else {
        decimal(n / 10).push(digit_char(n % 10))
    }
}

fn digit(d: usize) -> (c: char)
    requires
        d < 10,
    ensures
        c == digit_char(d as nat),
{
    if d == 0 {
        '0'
    } else if d == 1 {
        '1'
    } else if d == 2 {
        '2'
    } else if d == 3 {
        '3'
    } else if d == 4 {
        '4'
    } else if d == 5 {
        '5'
    } else if d == 6 {
        '6'
    } else if d == 7 {
        '7'
    } else if d == 8 {
        '8'
    } else {
        '9'
    }
}

/// Appends the decimal representation of `n` (what `format!("{n}")` prints).
pub fn push_decimal(s: &mut String, n: usize)
    ensures
        final(s)@ == old(s)@ + decimal(n as nat),
    decreases n,
{
    if n >= 10 {
        push_decimal(s, n / 10);
    }
    push_char(s, digit(n % 10));
    assert(old(s)@ + decimal(n as nat) =~= final(s)@) by {
        if n >= 10 {
            assert(decimal(n as nat) == decimal((n / 10) as nat).push(digit_char((n % 10) as nat)));
        }
    }
}

/// Appends the decimal representation of a wide number.
pub fn push_decimal_wide(s: &mut String, n: u128)
    ensures
        final(s)@ == old(s)@ + decimal(n as nat),
    decreases n,
{
    if n >= 10 {
        push_decimal_wide(s, n / 10);
    }
    push_char(s, digit((n % 10) as usize));
    assert(old(s)@ + decimal(n as nat) =~= final(s)@) by {
        if n >= 10 {
            assert(decimal(n as nat) == decimal((n / 10) as nat).push(digit_char((n % 10) as nat)));
        }
    }
}

/// `s` with every non-overlapping occurrence of `pat`, taken from the left, replaced by `rep`
/// (`str::replace`); an empty pattern replaces nothing.
pub open spec fn replace_all(s: Seq<char>, pat: Seq<char>, rep: Seq<char>) -> Seq<char>
    decreases s.len(),
{
    if s.len() == 0 {
        Seq::empty()
    } else if pat.len() > 0 && occurs_at(s, pat, 0) {
        rep + replace_all(s.skip(pat.len() as int), pat, rep)
    } else {
        seq![s[0]] + replace_all(s.drop_first(), pat, rep)
    }
}

/// `str::replace` on character vectors.
pub fn replace_chars(s: &Vec<char>, pat: &Vec<char>, rep: &Vec<char>) -> (out: Vec<char>)
    ensures
        out@ == replace_all(s@, pat@, rep@),
{
    let mut out: Vec<char> = Vec::new();
    let mut i: usize = 0;
    assert(s@.skip(0) =~= s@);
    while i < s.len()
        invariant
            i <= s@.len(),
            out@ + replace_all(s@.skip(i as int), pat@, rep@) == replace_all(s@, pat@, rep@),
        decreases s@.len() - i,
    {
        let ghost rest = s@.skip(i as int);
        if pat.len() > 0 && pat.len() <= s.len() - i && matches_at(s, pat, i) {
            assert(rest.subrange(0, pat@.len() as int) =~= s@.subrange(i as int, i + pat@.len()));
            assert(occurs_at(rest, pat@, 0));
            let ghost before = out@;
            let mut q: usize = 0;
            while q < rep.len()
                invariant
                    q <= rep@.len(),
                    out@ == before + rep@.take(q as int),
                decreases rep@.len() - q,
            {
                out.push(rep[q]);
                q = q + 1;
                assert(before + rep@.take(q as int) =~= (before + rep@.take(q - 1)).push(rep@[q - 1]));
            }
            assert(rep@.take(rep@.len() as int) =~= rep@);
            assert(rest.skip(pat@.len() as int) =~= s@.skip(i + pat@.len()));
            assert(out@ + replace_all(s@.skip(i + pat@.len()), pat@, rep@) =~= before + (rep@ + replace_all(rest.skip(pat@.len() as int), pat@, rep@)));
            i = i + pat.len();
        } else {
            proof {
                if pat@.len() > 0 && occurs_at(rest, pat@, 0) {
                    assert(rest.subrange(0, pat@.len() as int) =~= s@.subrange(i as int, i + pat@.len()));
                    assert(occurs_at(s@, pat@, i as int));
                }
            }
            let ghost before = out@;
            out.push(s[i]);
            assert(rest.drop_first() =~= s@.skip(i + 1));
            assert(out@ + replace_all(s@.skip(i + 1), pat@, rep@) =~= before + (seq![rest[0]] + replace_all(rest.drop_first(), pat@, rep@)));
            i = i + 1;
        }
    }
    assert(s@.skip(i as int).len() == 0);
    assert(out@ + replace_all(s@.skip(i as int), pat@, rep@) =~= out@);
    out
}

/// `s` without its trailing characters of class `k`, as a new vector.
pub fn strip_end_chars(s: &Vec<char>, k: CharClass) -> (out: Vec<char>)
    ensures
        out@ == strip_end(s@, k),
{
    let mut j: usize = s.len();
    while j > 0 && class_contains(k, s[j - 1])
        invariant
            j <= s@.len(),
            forall|m: int| j <= m < s@.len() ==> in_class(k, #[trigger] s@[m]),
        decreases j,
    {
        j = j - 1;
    }
    proof {
        lemma_strip_end_take(s@, k, j as int);
        let u = s@.take(j as int);
        if u.len() > 0 {
            assert(u.last() == s@[j - 1]);
        }
        assert(strip_end(u, k) == u);
    }
    assert(s@.subrange(0, j as int) =~= s@.take(j as int));
    slice_to_vec(s, 0, j)
}

} // verus!
