//! The integer parts of the Jaro and Jaro-Winkler string similarities: which characters match
//! within the Jaro window, how many matched characters stand out of order, and the length of
//! the common prefix that Jaro-Winkler rewards.
use vstd::prelude::*;

verus! {

/// The Jaro match window for texts of `l` and `r` characters: half the longer length, less one,
/// and at least zero.
pub open spec fn jaro_window(l: int, r: int) -> int {
    let m = if l >= r {
        l
    } else {
        r
    };
    if m / 2 >= 1 {
        m / 2 - 1
    } else {
        0
    }
}

/// The first position in `[lo, hi)` of `right` that is not yet matched and holds `c`.
pub open spec fn first_free(right: Seq<char>, used: Seq<bool>, c: char, lo: int, hi: int) -> Option<int>
    decreases hi - lo,
{
    if lo >= hi {
        None
    } else if !used[lo] && right[lo] == c {
        Some(lo)
    } else {
        first_free(right, used, c, lo + 1, hi)
    }
}

/// The lowest position that character `i` of a text may match in the other text.
pub open spec fn window_lo(i: int, w: int) -> int {
    if i >= w {
        i - w
    } else {
        0
    }
}

/// One past the highest position that character `i` may match in a text of `m` characters.
pub open spec fn window_hi(i: int, w: int, m: int) -> int {
    if i + w + 1 <= m {
        i + w + 1
    } else {
        m
    }
}

/// The matched flags of `left` and of `right` after the first `i` characters of `left` were
/// matched in order, each to the first unmatched equal character of `right` within the window.
pub open spec fn jaro_flags(left: Seq<char>, right: Seq<char>, i: nat) -> (Seq<bool>, Seq<bool>)
    decreases i,
{
    if i == 0 {
        (Seq::new(left.len(), |k: int| false), Seq::new(right.len(), |k: int| false))
    } else {
        let prev = jaro_flags(left, right, (i - 1) as nat);
        let idx = i - 1;
        let w = jaro_window(left.len() as int, right.len() as int);
        match first_free(right, prev.1, left[idx], window_lo(idx, w), window_hi(idx, w, right.len() as int)) {
            Some(j) => (prev.0.update(idx, true), prev.1.update(j, true)),
            None => prev,
        }
    }
}

/// The characters of `s` whose flag is set, in order.
pub open spec fn selected(s: Seq<char>, flags: Seq<bool>) -> Seq<char>
    decreases s.len(),
{
    if s.len() == 0 {
        Seq::empty()
    } else if flags[s.len() - 1] {
        selected(s.drop_last(), flags).push(s.last())
    } else {
        selected(s.drop_last(), flags)
    }
}

/// How many of the first `n` positions differ between `a` and `b`.
pub open spec fn mismatches(a: Seq<char>, b: Seq<char>, n: nat) -> nat
    decreases n,
{
    if n == 0 {
        0
    } else {
        mismatches(a, b, (n - 1) as nat) + if a[n - 1] != b[n - 1] {
            1nat
        } else {
            0nat
        }
    }
}

/// The matched characters of both texts in order, after all of `left` was matched.
pub open spec fn jaro_matched(left: Seq<char>, right: Seq<char>) -> (Seq<char>, Seq<char>) {
    let f = jaro_flags(left, right, left.len());
    (selected(left, f.0), selected(right, f.1))
}

/// The Jaro counts: how many characters match, and the transpositions (half the matched pairs,
/// taken in order, that differ).
pub open spec fn jaro_counts_of(left: Seq<char>, right: Seq<char>) -> (nat, nat) {
    let (a, b) = jaro_matched(left, right);
    let n = if a.len() <= b.len() {
        a.len()
    } else {
        b.len()
    };
    (a.len(), mismatches(a, b, n) / 2)
}

fn select(s: &Vec<char>, flags: &Vec<bool>) -> (out: Vec<char>)
    requires
        flags@.len() == s@.len(),
    ensures
        out@ == selected(s@, flags@),
{
    let mut out: Vec<char> = Vec::new();
    let mut i: usize = 0;
    while i < s.len()
        invariant
            i <= s@.len(),
            flags@.len() == s@.len(),
            out@ == selected(s@.take(i as int), flags@),
        decreases s@.len() - i,
    {
        assert(s@.take(i + 1).drop_last() =~= s@.take(i as int));
        assert(s@.take(i + 1).last() == s@[i as int]);
        if flags[i] {
            out.push(s[i]);
        }
        i = i + 1;
    }
    assert(s@.take(s@.len() as int) =~= s@);
    out
}

/// The Jaro counts of two character sequences: the number of matching characters and the number
/// of transpositions.
pub fn jaro_counts(left: &Vec<char>, right: &Vec<char>) -> (r: (usize, usize))
    ensures
        r.0 == jaro_counts_of(left@, right@).0,
        r.1 == jaro_counts_of(left@, right@).1,
{
    let n = left.len();
    let m = right.len();
    let longer = if n >= m { n } else { m };
    let w: usize = if longer / 2 >= 1 { longer / 2 - 1 } else { 0 };
    let mut lf: Vec<bool> = Vec::new();
    let mut k: usize = 0;
    while k < n
        invariant
            k <= n,
            n == left@.len(),
            lf@ == Seq::new(k as nat, |x: int| false),
        decreases n - k,
    {
        lf.push(false);
        k = k + 1;
        assert(lf@ =~= Seq::new(k as nat, |x: int| false));
    }
    let mut rf: Vec<bool> = Vec::new();
    let mut k: usize = 0;
    while k < m
        invariant
            k <= m,
            m == right@.len(),
            rf@ == Seq::new(k as nat, |x: int| false),
        decreases m - k,
    {
        rf.push(false);
        k = k + 1;
        assert(rf@ =~= Seq::new(k as nat, |x: int| false));
    }
    let mut i: usize = 0;
    while i < n
        invariant
            i <= n,
            n == left@.len(),
            m == right@.len(),
            w == jaro_window(n as int, m as int),
            lf@.len() == n,
            rf@.len() == m,
            (lf@, rf@) == jaro_flags(left@, right@, i as nat),
        decreases n - i,
    {
        let lo: usize = if i >= w { i - w } else { 0 };
        let hi: usize = if i < m && w < m - i { i + w + 1 } else { m };
        assert(lo == window_lo(i as int, w as int));
        assert(hi == window_hi(i as int, w as int, m as int));
        let ghost prev_r = rf@;
        let c = left[i];
        let mut j: usize = lo;
        let mut found: Option<usize> = None;
        while j < hi && found.is_none()
            invariant
                lo <= j,
                j <= hi || j == lo,
                hi <= m,
                m == right@.len(),
                rf@ == prev_r,
                prev_r.len() == m,
                match found {
                    None => first_free(right@, prev_r, c, lo as int, hi as int) == first_free(right@, prev_r, c, j as int, hi as int),
                    Some(x) => x < m && first_free(right@, prev_r, c, lo as int, hi as int) == Some(x as int),
                },
            decreases hi - j, if found is None { 1int } else { 0int },
        {
            if !rf[j] && right[j] == c {
                found = Some(j);
            } else {
                j = j + 1;
            }
        }
        match found {
            Some(x) => {
                lf.set(i, true);
                rf.set(x, true);
            },
            None => {
                assert(first_free(right@, prev_r, c, j as int, hi as int) is None);
            },
        }
        i = i + 1;
    }
    let a = select(left, &lf);
    let b = select(right, &rf);
    let shorter = if a.len() <= b.len() { a.len() } else { b.len() };
    let mut out_of_order: usize = 0;
    let mut q: usize = 0;
    while q < shorter
        invariant
            q <= shorter,
            shorter <= a@.len(),
            shorter <= b@.len(),
            out_of_order <= q,
            out_of_order == mismatches(a@, b@, q as nat),
        decreases shorter - q,
    {
        if a[q] != b[q] {
            out_of_order = out_of_order + 1;
        }
        q = q + 1;
    }
    (a.len(), out_of_order / 2)
}

/// The length of the common prefix of `a` and `b`, at most `cap`.
pub open spec fn prefix_len(a: Seq<char>, b: Seq<char>, cap: nat) -> nat
    decreases cap,
{
    if cap == 0 || a.len() == 0 || b.len() == 0 || a[0] != b[0] {
        0
    } else {
        1 + prefix_len(a.drop_first(), b.drop_first(), (cap - 1) as nat)
    }
}

proof fn lemma_prefix_step(a: Seq<char>, b: Seq<char>, cap: nat, k: nat)
    requires
        k < cap,
        k < a.len(),
        k < b.len(),
        forall|j: int| 0 <= j < k ==> a[j] == b[j],
    ensures
        a[k as int] != b[k as int] ==> prefix_len(a, b, cap) == k,
        a[k as int] == b[k as int] && k + 1 == cap ==> prefix_len(a, b, cap) == cap,
    decreases k,
{
    if k > 0 {
        assert forall|j: int| 0 <= j < k - 1 implies a.drop_first()[j] == b.drop_first()[j] by {
            assert(a.drop_first()[j] == a[j + 1]);
            assert(b.drop_first()[j] == b[j + 1]);
        }
        assert(a.drop_first()[k - 1] == a[k as int]);
        assert(b.drop_first()[k - 1] == b[k as int]);
        lemma_prefix_step(a.drop_first(), b.drop_first(), (cap - 1) as nat, (k - 1) as nat);
        assert(a[0] == b[0]);
    } else {
        if a[0] == b[0] && cap == 1 {
            assert(prefix_len(a.drop_first(), b.drop_first(), 0) == 0);
        }
    }
}

proof fn lemma_prefix_end(a: Seq<char>, b: Seq<char>, cap: nat, k: nat)
    requires
        k <= cap,
        k <= a.len(),
        k <= b.len(),
        k == a.len() || k == b.len() || k == cap,
        forall|j: int| 0 <= j < k ==> a[j] == b[j],
    ensures
        prefix_len(a, b, cap) == k,
    decreases k,
{
    if k > 0 {
        assert forall|j: int| 0 <= j < k - 1 implies a.drop_first()[j] == b.drop_first()[j] by {
            assert(a.drop_first()[j] == a[j + 1]);
            assert(b.drop_first()[j] == b[j + 1]);
        }
        lemma_prefix_end(a.drop_first(), b.drop_first(), (cap - 1) as nat, (k - 1) as nat);
        assert(a[0] == b[0]);
    }
}

/// The length of the common prefix of two character sequences, at most `cap` (Jaro-Winkler
/// rewards up to four).
pub fn common_prefix_len(a: &Vec<char>, b: &Vec<char>, cap: usize) -> (r: usize)
    ensures
        r == prefix_len(a@, b@, cap as nat),
{
    let mut k: usize = 0;
    while k < cap && k < a.len() && k < b.len()
        invariant
            k <= cap,
            k <= a@.len(),
            k <= b@.len(),
            forall|j: int| 0 <= j < k ==> a@[j] == b@[j],
        decreases cap - k,
    {
        if a[k] != b[k] {
            proof {
                lemma_prefix_step(a@, b@, cap as nat, k as nat);
            }
            return k;
        }
        k = k + 1;
    }
    proof {
        lemma_prefix_end(a@, b@, cap as nat, k as nat);
    }
    k
}

} // verus!
