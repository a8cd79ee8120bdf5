//! Sequence comparisons behind the lexical metrics: clipped multiset overlap, longest common
//! subsequence, and the Levenshtein and Hamming distances. Items are compared by their views,
//! so a token is its character sequence.
use vstd::prelude::*;
use vstd::multiset::Multiset;

use crate::text::chars_equal;

verus! {

broadcast use vstd::seq_lib::group_to_multiset_ensures, vstd::multiset::group_multiset_axioms;

/// The clipped overlap of two sequences: the size of the multiset intersection, where each
/// item counts as often as it occurs in both (the smaller of its two counts).
pub open spec fn clipped_overlap<T>(left: Seq<T>, right: Seq<T>) -> nat {
    left.to_multiset().intersection_with(right.to_multiset()).len()
}

pub(crate) proof fn lemma_intersection_count<T>(a: Multiset<T>, b: Multiset<T>, v: T)
    ensures
        a.intersection_with(b).count(v) == if a.count(v) <= b.count(v) {
            a.count(v)
        } else {
            b.count(v)
        },
{
    let m = Map::<T, nat>::new(
        |x: T| a.contains(x),
        |x: T| vstd::math::min(a.count(x) as int, b.count(x) as int) as nat,
    );
    assert(m.dom() =~= a.dom());
    assert(a.dom().finite());
    if a.contains(v) {
        assert(m.dom().contains(v));
    } else {
        assert(!m.dom().contains(v));
    }
}

/// Adding `x` to the left side adds one to the overlap exactly when the right side still holds
/// an `x`, which is then used up.
proof fn lemma_overlap_insert<T>(a: Multiset<T>, b: Multiset<T>, x: T)
    ensures
        b.count(x) > 0 ==> a.insert(x).intersection_with(b).len() == a.intersection_with(
            b.remove(x),
        ).len() + 1,
        b.count(x) == 0 ==> a.insert(x).intersection_with(b).len() == a.intersection_with(
            b,
        ).len(),
{
    if b.count(x) > 0 {
        let lhs = a.insert(x).intersection_with(b);
        let rhs = a.intersection_with(b.remove(x)).insert(x);
        assert forall|v: T| lhs.count(v) == rhs.count(v) by {
            lemma_intersection_count(a.insert(x), b, v);
            lemma_intersection_count(a, b.remove(x), v);
        }
        assert(lhs =~= rhs);
    } else {
        let lhs = a.insert(x).intersection_with(b);
        let rhs = a.intersection_with(b);
        assert forall|v: T| lhs.count(v) == rhs.count(v) by {
            lemma_intersection_count(a.insert(x), b, v);
            lemma_intersection_count(a, b, v);
        }
        assert(lhs =~= rhs);
    }
}

/// The clipped overlap is symmetric.
pub proof fn lemma_clipped_overlap_symmetric<T>(left: Seq<T>, right: Seq<T>)
    ensures
        clipped_overlap(left, right) == clipped_overlap(right, left),
{
    let a = left.to_multiset();
    let b = right.to_multiset();
    assert forall|v: T| a.intersection_with(b).count(v) == b.intersection_with(a).count(v) by {
        lemma_intersection_count(a, b, v);
        lemma_intersection_count(b, a, v);
    }
    assert(a.intersection_with(b) =~= b.intersection_with(a));
}

proof fn lemma_empty_intersection<T>(b: Multiset<T>)
    ensures
        Seq::<T>::empty().to_multiset().intersection_with(b).len() == 0,
{
    let e = Seq::<T>::empty().to_multiset();
    assert forall|v: T| e.intersection_with(b).count(v) == 0 by {
        lemma_intersection_count(e, b, v);
    }
    assert(e.intersection_with(b) =~= Multiset::empty());
}

proof fn lemma_intersection_bounded<T>(left: Seq<T>, b: Multiset<T>)
    ensures
        left.to_multiset().intersection_with(b).len() <= left.len(),
    decreases left.len(),
{
    if left.len() == 0 {
        assert(left =~= Seq::<T>::empty());
        lemma_empty_intersection(b);
    } else {
        let init = left.drop_last();
        assert(left =~= init.push(left.last()));
        lemma_overlap_insert(init.to_multiset(), b, left.last());
        lemma_intersection_bounded(init, b);
        lemma_intersection_bounded(init, b.remove(left.last()));
    }
}

/// The clipped overlap never exceeds the length of the left side.
pub proof fn lemma_clipped_overlap_bounded<T>(left: Seq<T>, right: Seq<T>)
    ensures
        clipped_overlap(left, right) <= left.len(),
{
    lemma_intersection_bounded(left, right.to_multiset());
}

/// The position of an item with the view `x@` in `v`, if there is one.
fn position_of(v: &Vec<Vec<char>>, x: &Vec<char>) -> (r: Option<usize>)
    ensures
        match r {
            Some(j) => j < v@.len() && v@[j as int]@ == x@,
            None => forall|j: int| 0 <= j < v@.len() ==> v@[j]@ != x@,
        },
{
    let mut j: usize = 0;
    while j < v.len()
        invariant
            j <= v@.len(),
            forall|k: int| 0 <= k < j ==> v@[k]@ != x@,
        decreases v@.len() - j,
    {
        if chars_equal(&v[j], x) {
            return Some(j);
        }
        j = j + 1;
    }
    None
}

/// The views of a vector of character vectors.
pub open spec fn views(v: Seq<Vec<char>>) -> Seq<Seq<char>> {
    v.map_values(|w: Vec<char>| w@)
}

/// The clipped overlap of two token (or n-gram) lists, compared by their characters.
pub fn multiset_overlap(left: &Vec<Vec<char>>, right: &Vec<Vec<char>>) -> (r: usize)
    ensures
        r == clipped_overlap(views(left@), views(right@)),
{
    let mut remaining: Vec<Vec<char>> = right.clone();
    proof {
        assert(views(remaining@) =~= views(right@)) by {
            assert forall|k: int| 0 <= k < right@.len() implies remaining@[k]@ == right@[k]@ by {
                assert(vstd::pervasive::cloned(right@[k], remaining@[k]));
            }
        }
    }
    let mut count: usize = 0;
    let n: usize = left.len();
    let mut i: usize = n;
    assert(views(left@).take(i as int) =~= views(left@));
    while i > 0
        invariant
            i <= left@.len(),
            n == left@.len(),
            count + clipped_overlap(views(left@).take(i as int), views(remaining@))
                == clipped_overlap(views(left@), views(right@)),
        decreases i,
    {
        let ghost pre = views(left@).take(i - 1);
        let ghost rem = views(remaining@);
        let x = &left[i - 1];
        assert(views(left@).take(i as int) =~= pre.push(x@));
        assert(pre.push(x@).to_multiset() =~= pre.to_multiset().insert(x@));
        proof {
            lemma_overlap_insert(pre.to_multiset(), rem.to_multiset(), x@);
            lemma_clipped_overlap_bounded(pre, rem);
            lemma_clipped_overlap_bounded(views(left@), views(right@));
        }
        match position_of(&remaining, x) {
            Some(j) => {
                assert(rem[j as int] == x@);
                assert(rem.to_multiset().count(x@) > 0);
                remaining.remove(j);
                assert(views(remaining@) =~= rem.remove(j as int));
                assert(rem.remove(j as int).to_multiset() == rem.to_multiset().remove(x@));
                assert(clipped_overlap(views(left@).take(i as int), rem) == clipped_overlap(
                    pre,
                    rem.remove(j as int),
                ) + 1);
                count = count + 1;
            },
            None => {
                assert(!rem.contains(x@));
                assert(rem.to_multiset().count(x@) == 0);
            },
        }
        i = i - 1;
    }
    assert(views(left@).take(0) =~= Seq::<Seq<char>>::empty());
    proof {
        lemma_empty_intersection(views(remaining@).to_multiset());
    }
    count
}

/// The length of a longest common subsequence of `a` and `b`, by the usual recursion on the
/// last items.
pub open spec fn lcs_len<T>(a: Seq<T>, b: Seq<T>) -> nat
    decreases a.len() + b.len(),
{
    if a.len() == 0 || b.len() == 0 {
        0
    } else if a.last() == b.last() {
        lcs_len(a.drop_last(), b.drop_last()) + 1
    } else {
        let x = lcs_len(a.drop_last(), b);
        let y = lcs_len(a, b.drop_last());
        if x >= y {
            x
        } else {
            y
        }
    }
}

/// A common subsequence is no longer than either sequence.
pub proof fn lemma_lcs_bounded<T>(a: Seq<T>, b: Seq<T>)
    ensures
        lcs_len(a, b) <= a.len(),
        lcs_len(a, b) <= b.len(),
    decreases a.len() + b.len(),
{
    if a.len() > 0 && b.len() > 0 {
        lemma_lcs_bounded(a.drop_last(), b.drop_last());
        lemma_lcs_bounded(a.drop_last(), b);
        lemma_lcs_bounded(a, b.drop_last());
    }
}

/// The length of a longest common subsequence of two token lists.
pub fn longest_common_subsequence_len(left: &Vec<Vec<char>>, right: &Vec<Vec<char>>) -> (r: usize)
    ensures
        r == lcs_len(views(left@), views(right@)),
{
    let ghost a = views(left@);
    let ghost b = views(right@);
    let m = right.len();
    if m == 0 {
        return 0;
    }
    // `prev[j]` holds the value for the prefix of `right` of length `j + 1`; the value for the
    // empty prefix is always 0.
    let mut prev: Vec<usize> = vec![0usize; m];
    let mut i: usize = 0;
    assert forall|j: int| 0 <= j < m implies #[trigger] prev@[j] == lcs_len(a.take(0), b.take(j + 1)) by {
        assert(a.take(0).len() == 0);
    }
    while i < left.len()
        invariant
            a == views(left@),
            b == views(right@),
            m == right@.len(),
            0 < m,
            i <= left@.len(),
            prev@.len() == m,
            forall|j: int| 0 <= j < m ==> #[trigger] prev@[j] == lcs_len(a.take(i as int), b.take(j + 1)),
        decreases left@.len() - i,
    {
        let mut cur: Vec<usize> = vec![0usize; m];
        let mut j: usize = 0;
        while j < m
            invariant
                a == views(left@),
                b == views(right@),
                m == right@.len(),
                i < left@.len(),
                j <= m,
                prev@.len() == m,
                cur@.len() == m,
                forall|k: int| 0 <= k < m ==> #[trigger] prev@[k] == lcs_len(a.take(i as int), b.take(k + 1)),
                forall|k: int| 0 <= k < j ==> #[trigger] cur@[k] == lcs_len(a.take(i + 1), b.take(k + 1)),
            decreases m - j,
        {
            let ghost ai = a.take(i + 1);
            let ghost bj = b.take(j + 1);
            assert(ai.drop_last() =~= a.take(i as int));
            assert(bj.drop_last() =~= b.take(j as int));
            assert(ai.last() == left@[i as int]@);
            assert(bj.last() == right@[j as int]@);
            assert(a.take(i as int).len() == i);
            assert(b.take(0).len() == 0);
            assert(ai.len() == i + 1);
            proof {
                lemma_lcs_bounded(a.take(i as int), b.take(j as int));
            }
            let diag: usize = if j == 0 { 0 } else { prev[j - 1] };
            let left_val: usize = if j == 0 { 0 } else { cur[j - 1] };
            assert(diag == lcs_len(a.take(i as int), b.take(j as int)));
            assert(left_val == lcs_len(ai, b.take(j as int)));
            assert(prev@[j as int] == lcs_len(a.take(i as int), bj));
            let v = if chars_equal(&left[i], &right[j]) {
                diag + 1
            } else {
                let x = prev[j];
                if x >= left_val {
                    x
                } else {
                    left_val
                }
            };
            cur[j] = v;
            j = j + 1;
        }
        prev = cur;
        i = i + 1;
    }
    assert(a.take(left@.len() as int) =~= a);
    assert(b.take(m as int) =~= b);
    prev[m - 1]
}

/// The Levenshtein distance: the fewest single-character insertions, deletions and
/// substitutions that turn `a` into `b`, by the usual recursion on the last characters.
pub open spec fn edit_distance(a: Seq<char>, b: Seq<char>) -> nat
    decreases a.len() + b.len(),
{
    if a.len() == 0 {
        b.len()
    } else if b.len() == 0 {
        a.len()
    } else {
        let deletion = edit_distance(a.drop_last(), b) + 1;
        let insertion = edit_distance(a, b.drop_last()) + 1;
        let substitution = edit_distance(a.drop_last(), b.drop_last()) + if a.last() == b.last() {
            0nat
        } else {
            1nat
        };
        let m = if insertion <= deletion {
            insertion
        } else {
            deletion
        };
        if m <= substitution {
            m
        } else {
            substitution
        }
    }
}

/// The distance never exceeds the longer length.
pub proof fn lemma_edit_distance_bounded(a: Seq<char>, b: Seq<char>)
    ensures
        edit_distance(a, b) <= if a.len() >= b.len() {
            a.len()
        } else {
            b.len()
        },
    decreases a.len() + b.len(),
{
    if a.len() > 0 && b.len() > 0 {
        lemma_edit_distance_bounded(a.drop_last(), b.drop_last());
    }
}

/// The Levenshtein distance between two character sequences.
pub fn levenshtein_chars(left: &Vec<char>, right: &Vec<char>) -> (r: usize)
    ensures
        r == edit_distance(left@, right@),
{
    let ghost a = left@;
    let ghost b = right@;
    let m = right.len();
    if m == 0 {
        return left.len();
    }
    // `prev[j]` holds the distance to the prefix of `right` of length `j + 1`; the distance to
    // the empty prefix is the length of the prefix of `left`.
    let mut prev: Vec<usize> = Vec::new();
    let mut k: usize = 0;
    while k < m
        invariant
            b == right@,
            m == right@.len(),
            k <= m,
            prev@.len() == k,
            forall|j: int| 0 <= j < k ==> #[trigger] prev@[j] == j + 1,
        decreases m - k,
    {
        prev.push(k + 1);
        k = k + 1;
    }
    assert forall|j: int| 0 <= j < m implies #[trigger] prev@[j] == edit_distance(
        a.take(0),
        b.take(j + 1),
    ) by {
        assert(a.take(0).len() == 0);
    }
    let n = left.len();
    let mut i: usize = 0;
    while i < n
        invariant
            n == left@.len(),
            a == left@,
            b == right@,
            m == right@.len(),
            0 < m,
            i <= left@.len(),
            prev@.len() == m,
            forall|j: int| 0 <= j < m ==> #[trigger] prev@[j] == edit_distance(a.take(i as int), b.take(j + 1)),
        decreases left@.len() - i,
    {
        let mut cur: Vec<usize> = vec![0usize; m];
        let mut j: usize = 0;
        while j < m
            invariant
                n == left@.len(),
                a == left@,
                b == right@,
                m == right@.len(),
                i < left@.len(),
                j <= m,
                prev@.len() == m,
                cur@.len() == m,
                forall|q: int| 0 <= q < m ==> #[trigger] prev@[q] == edit_distance(a.take(i as int), b.take(q + 1)),
                forall|q: int| 0 <= q < j ==> #[trigger] cur@[q] == edit_distance(a.take(i + 1), b.take(q + 1)),
            decreases m - j,
        {
            let ghost ai = a.take(i + 1);
            let ghost bj = b.take(j + 1);
            assert(ai.drop_last() =~= a.take(i as int));
            assert(bj.drop_last() =~= b.take(j as int));
            assert(a.take(i as int).len() == i);
            assert(ai.len() == i + 1);
            assert(b.take(0).len() == 0);
            proof {
                lemma_edit_distance_bounded(a, b);
                lemma_edit_distance_bounded(ai, b.take(j as int));
                lemma_edit_distance_bounded(a.take(i as int), bj);
                lemma_edit_distance_bounded(a.take(i as int), b.take(j as int));
            }
            let diag: usize = if j == 0 { i } else { prev[j - 1] };
            let west: usize = if j == 0 { i + 1 } else { cur[j - 1] };
            assert(diag == edit_distance(a.take(i as int), b.take(j as int)));
            assert(west == edit_distance(ai, b.take(j as int)));
            assert(prev@[j as int] == edit_distance(a.take(i as int), bj));
            let insertion = west.saturating_add(1);
            let deletion = prev[j].saturating_add(1);
            let substitution = diag.saturating_add(if left[i] != right[j] { 1usize } else { 0usize });
            let a1 = if insertion <= deletion {
                insertion
            } else {
                deletion
            };
            let v = if a1 <= substitution {
                a1
            } else {
                substitution
            };
            cur[j] = v;
            j = j + 1;
        }
        prev = cur;
        i = i + 1;
    }
    assert(a.take(left@.len() as int) =~= a);
    assert(b.take(m as int) =~= b);
    prev[m - 1]
}

/// The number of positions below `n` at which `a` and `b` differ.
pub open spec fn mismatches(a: Seq<char>, b: Seq<char>, n: int) -> nat
    decreases n,
{
    if n <= 0 {
        0
    } else {
        mismatches(a, b, n - 1) + if a[n - 1] != b[n - 1] {
            1nat
        } else {
            0nat
        }
    }
}

/// The Hamming distance with padding: positional mismatches over the shared prefix plus the
/// difference of the lengths.
pub open spec fn padded_hamming(a: Seq<char>, b: Seq<char>) -> nat {
    let shared = if a.len() <= b.len() {
        a.len()
    } else {
        b.len()
    };
    mismatches(a, b, shared as int) + if a.len() >= b.len() {
        (a.len() - b.len()) as nat
    } else {
        (b.len() - a.len()) as nat
    }
}

/// The padded Hamming distance between two character sequences.
pub fn hamming_distance(left: &Vec<char>, right: &Vec<char>) -> (r: usize)
    ensures
        r == padded_hamming(left@, right@),
{
    let shared = if left.len() <= right.len() {
        left.len()
    } else {
        right.len()
    };
    let mut count: usize = 0;
    let mut i: usize = 0;
    while i < shared
        invariant
            shared <= left@.len(),
            shared <= right@.len(),
            i <= shared,
            count == mismatches(left@, right@, i as int),
            count <= i,
        decreases shared - i,
    {
        if left[i] != right[i] {
            count = count + 1;
        }
        i = i + 1;
    }
    if left.len() >= right.len() {
        count + (left.len() - right.len())
    } else {
        count + (right.len() - left.len())
    }
}

} // verus!
