//! An ordered map keyed by strings: the entries are kept sorted by key in the order of Rust
//! strings, so listing the keys gives them in the same order as a `BTreeMap<String, _>`.
use vstd::prelude::*;

use crate::text::{
    chars_of, compare_chars, lemma_seq_lt_asymmetric, lemma_seq_lt_irreflexive, lemma_seq_lt_total,
    lemma_seq_lt_transitive, seq_lt, Cmp,
};

verus! {

/// A map from strings to values, ordered by key.
#[derive(Debug, PartialEq, Eq)]
pub struct StringMap<V> {
    entries: Vec<(String, V)>,
}

/// Whether a sequence of keys is strictly increasing.
pub open spec fn strictly_sorted(keys: Seq<Seq<char>>) -> bool {
    forall|i: int, j: int| 0 <= i < j < keys.len() ==> seq_lt(#[trigger] keys[i], #[trigger] keys[j])
}

/// The keys of a map in ascending order, each once.
pub open spec fn sorted_key_list<V>(m: Map<Seq<char>, V>) -> Seq<Seq<char>> {
    choose|s: Seq<Seq<char>>| strictly_sorted(s) && forall|k: Seq<char>| #[trigger] s.contains(k) <==> m.contains_key(k)
}

/// Two strictly ascending sequences with the same members are equal.
pub proof fn lemma_sorted_unique(a: Seq<Seq<char>>, b: Seq<Seq<char>>)
    requires
        strictly_sorted(a),
        strictly_sorted(b),
        forall|k: Seq<char>| #![trigger a.contains(k)] #![trigger b.contains(k)] a.contains(k) <==> b.contains(k),
    ensures
        a == b,
    decreases a.len(),
{
    if a.len() == 0 {
        if b.len() > 0 {
            assert(b.contains(b[0]));
        }
        assert(a =~= b);
    } else {
        assert(a.contains(a[0]));
        assert(b.len() > 0);
        assert(b.contains(b[0]));
        let j = choose|j: int| 0 <= j < b.len() && b[j] == a[0];
        let i = choose|i: int| 0 <= i < a.len() && a[i] == b[0];
        if a[0] != b[0] {
            assert(j > 0 && i > 0);
            assert(seq_lt(b[0], b[j]));
            assert(seq_lt(a[0], a[i]));
            lemma_seq_lt_asymmetric(a[0], b[0]);
            assert(false);
        }
        let ra = a.drop_first();
        let rb = b.drop_first();
        assert forall|k: Seq<char>| #![trigger ra.contains(k)] #![trigger rb.contains(k)] ra.contains(k) <==> rb.contains(k) by {
            if ra.contains(k) {
                let x = choose|x: int| 0 <= x < ra.len() && ra[x] == k;
                assert(a[x + 1] == k);
                assert(a.contains(k));
                let y = choose|y: int| 0 <= y < b.len() && b[y] == k;
                if y == 0 {
                    assert(seq_lt(a[0], a[x + 1]));
                    lemma_seq_lt_irreflexive(k);
                }
                assert(rb[y - 1] == k);
            }
            if rb.contains(k) {
                let x = choose|x: int| 0 <= x < rb.len() && rb[x] == k;
                assert(b[x + 1] == k);
                assert(b.contains(k));
                let y = choose|y: int| 0 <= y < a.len() && a[y] == k;
                if y == 0 {
                    assert(seq_lt(b[0], b[x + 1]));
                    lemma_seq_lt_irreflexive(k);
                }
                assert(ra[y - 1] == k);
            }
        }
        lemma_sorted_unique(ra, rb);
        assert(a =~= seq![a[0]] + ra);
        assert(b =~= seq![b[0]] + rb);
    }
}

/// A strictly ascending sequence of exactly a map's keys is `sorted_key_list` of the map.
pub proof fn lemma_sorted_key_list<V>(m: Map<Seq<char>, V>, s: Seq<Seq<char>>)
    requires
        strictly_sorted(s),
        forall|k: Seq<char>| #[trigger] s.contains(k) <==> m.contains_key(k),
    ensures
        sorted_key_list(m) == s,
{
    let t = sorted_key_list(m);
    assert(strictly_sorted(t) && forall|k: Seq<char>| #[trigger] t.contains(k) <==> m.contains_key(k));
    lemma_sorted_unique(t, s);
}

impl<V> StringMap<V> {
    /// The keys in stored order.
    pub closed spec fn key_seq(&self) -> Seq<Seq<char>> {
        self.entries@.map_values(|e: (String, V)| e.0@)
    }

    /// The values in key order.
    pub closed spec fn value_seq(&self) -> Seq<V> {
        self.entries@.map_values(|e: (String, V)| e.1)
    }

    /// The internal well-formedness: keys strictly increasing. Every map has it.
    #[verifier::type_invariant]
    pub closed spec fn wf(&self) -> bool {
        strictly_sorted(self.key_seq())
    }

    /// The keys of the map in ascending order.
    pub open spec fn sorted_keys(&self) -> Seq<Seq<char>> {
        self.key_seq()
    }

    /// The map as a mathematical map from character sequences to values.
    pub closed spec fn as_map(&self) -> Map<Seq<char>, V> {
        Map::new(
            |k: Seq<char>| self.key_seq().contains(k),
            |k: Seq<char>| self.value_seq()[self.key_seq().index_of(k)],
        )
    }

    proof fn lemma_distinct(&self, i: int, j: int)
        requires
            self.wf(),
            0 <= i < self.key_seq().len(),
            0 <= j < self.key_seq().len(),
            i != j,
        ensures
            self.key_seq()[i] != self.key_seq()[j],
    {
        lemma_seq_lt_irreflexive(self.key_seq()[i]);
    }

    /// The value stored at a position is the map's value for the key at that position.
    pub proof fn lemma_entry(&self, i: int)
        requires
            self.wf(),
            0 <= i < self.sorted_keys().len(),
        ensures
            self@.contains_key(self.sorted_keys()[i]),
            self@[self.sorted_keys()[i]] == self.value_seq()[i],
            self.sorted_keys().index_of(self.sorted_keys()[i]) == i,
    {
        let ks = self.key_seq();
        assert(ks.contains(ks[i]));
        let j = ks.index_of(ks[i]);
        if j != i {
            self.lemma_distinct(i, j);
        }
    }

    /// The keys are exactly the map's domain, in strictly increasing order.
    pub proof fn lemma_sorted_keys(&self)
        requires
            self.wf(),
        ensures
            strictly_sorted(self.sorted_keys()),
            forall|k: Seq<char>| self@.contains_key(k) <==> self.sorted_keys().contains(k),
            self.value_seq().len() == self.sorted_keys().len(),
    {
    }

    /// An empty map.
    pub fn new() -> (m: Self)
        ensures
            m.wf(),
            m@ == Map::<Seq<char>, V>::empty(),
    {
        let m = StringMap { entries: Vec::new() };
        assert(m@ =~= Map::<Seq<char>, V>::empty());
        m
    }

    /// The number of entries.
    pub fn len(&self) -> (n: usize)
        ensures
            n == self.sorted_keys().len(),
    {
        self.entries.len()
    }

    /// The key at position `i` in ascending key order.
    pub fn key_at(&self, i: usize) -> (k: &String)
        requires
            i < self.sorted_keys().len(),
        ensures
            k@ == self.sorted_keys()[i as int],
    {
        &self.entries[i].0
    }

    /// The value at position `i` in ascending key order.
    pub fn value_at(&self, i: usize) -> (v: &V)
        requires
            i < self.sorted_keys().len(),
        ensures
            *v == self.value_seq()[i as int],
            *v == self@[self.sorted_keys()[i as int]],
    {
        proof {
            use_type_invariant(self);
            self.lemma_entry(i as int);
        }
        &self.entries[i].1
    }

    /// The position of a key in raw entries, if present.
    fn position_in(e: &Vec<(String, V)>, key: &Vec<char>) -> (r: Option<usize>)
        requires
            (StringMap { entries: *e }).wf(),
        ensures
            match r {
                Some(i) => i < (StringMap { entries: *e }).key_seq().len() && (StringMap { entries: *e }).key_seq()[i as int] == key@,
                None => !(StringMap { entries: *e }).key_seq().contains(key@),
            },
    {
        let ghost m = StringMap { entries: *e };
        let mut i: usize = 0;
        while i < e.len()
            invariant
                i <= e@.len(),
                m == (StringMap { entries: *e }),
                forall|j: int| 0 <= j < i ==> m.key_seq()[j] != key@,
            decreases e@.len() - i,
        {
            let k = chars_of(e[i].0.as_str());
            if compare_chars(&k, key) == Cmp::Equal {
                return Some(i);
            }
            i = i + 1;
        }
        None
    }

    /// The position of a key, if present.
    fn position(&self, key: &Vec<char>) -> (r: Option<usize>)
        requires
            self.wf(),
        ensures
            match r {
                Some(i) => i < self.key_seq().len() && self.key_seq()[i as int] == key@,
                None => !self.key_seq().contains(key@),
            },
    {
        let mut i: usize = 0;
        while i < self.entries.len()
            invariant
                i <= self.entries@.len(),
                forall|j: int| 0 <= j < i ==> self.key_seq()[j] != key@,
            decreases self.entries@.len() - i,
        {
            let k = chars_of(self.entries[i].0.as_str());
            if compare_chars(&k, key) == Cmp::Equal {
                return Some(i);
            }
            i = i + 1;
        }
        None
    }

    /// Whether the map has a key.
    pub fn contains_key(&self, key: &str) -> (b: bool)
        ensures
            b == self@.contains_key(key@),
    {
        proof {
            use_type_invariant(self);
        }
        let k = chars_of(key);
        self.position(&k).is_some()
    }

    /// The value of a key, if present (`BTreeMap::get`).
    pub fn get(&self, key: &str) -> (r: Option<&V>)
        ensures
            match r {
                Some(v) => self@.contains_key(key@) && *v == self@[key@],
                None => !self@.contains_key(key@),
            },
    {
        proof {
            use_type_invariant(self);
        }
        let k = chars_of(key);
        match self.position(&k) {
            Some(i) => {
                proof {
                    self.lemma_entry(i as int);
                }
                Some(&self.entries[i].1)
            },
            None => None,
        }
    }

    /// Inserts or overwrites a key (`BTreeMap::insert`).
    pub fn insert(&mut self, key: String, value: V)
        ensures
            final(self)@ == old(self)@.insert(key@, value),
    {
        proof {
            use_type_invariant(&*self);
        }
        let mut e: Vec<(String, V)> = Vec::new();
        std::mem::swap(&mut e, &mut self.entries);
        Self::insert_entries(&mut e, key, value);
        self.entries = e;
    }

    fn insert_entries(e: &mut Vec<(String, V)>, key: String, value: V)
        requires
            (StringMap { entries: *old(e) }).wf(),
        ensures
            (StringMap { entries: *final(e) }).wf(),
            (StringMap { entries: *final(e) })@ == (StringMap { entries: *old(e) })@.insert(key@, value),
    {
        let ghost m0 = StringMap { entries: *e };
        let k = chars_of(key.as_str());
        let ghost old_keys = m0.key_seq();
        let ghost old_vals = m0.value_seq();
        let mut i: usize = 0;
        while i < e.len()
            invariant
                i <= e@.len(),
                *e == m0.entries,
                m0 == (StringMap { entries: *old(e) }),
                m0.key_seq() == old_keys,
                m0.value_seq() == old_vals,
                m0.wf(),
                k@ == key@,
                forall|j: int| 0 <= j < i ==> seq_lt(#[trigger] old_keys[j], key@),
            ensures
                i <= e@.len(),
                *e == m0.entries,
                i < old_keys.len() ==> seq_lt(key@, old_keys[i as int]),
                forall|j: int| 0 <= j < i ==> seq_lt(#[trigger] old_keys[j], key@),
            decreases e@.len() - i,
        {
            let ki = chars_of(e[i].0.as_str());
            let c = compare_chars(&ki, &k);
            if c == Cmp::Equal {
                e.set(i, (key, value));
                proof {
                    let cur = StringMap { entries: *e };
                    let nk = cur.key_seq();
                    assert(nk =~= old_keys);
                    assert(cur.value_seq() =~= old_vals.update(i as int, value));
                    assert forall|kk: Seq<char>| #![trigger cur@[kk]] cur@.contains_key(kk) implies cur@[kk] == m0@.insert(key@, value)[kk] by {
                        let j = nk.index_of(kk);
                        m0.lemma_entry(j);
                        cur.lemma_entry(j);
                        assert(nk[i as int] == key@);
                        if j != i {
                            cur.lemma_distinct(i as int, j);
                        }
                    }
                    assert(nk[i as int] == key@);
                    assert(nk.contains(key@));
                    assert(cur@.dom() =~= m0@.insert(key@, value).dom());
                    assert(cur@ =~= m0@.insert(key@, value));
                }
                return;
            }
            if c == Cmp::Greater {
                break;
            }
            i = i + 1;
        }
        let ghost pos = i as int;
        proof {
            if pos < old_keys.len() {
                lemma_seq_lt_total(old_keys[pos], key@);
            }
        }
        e.insert(i, (key, value));
        proof {
            let cur = StringMap { entries: *e };
            let nk = cur.key_seq();
            assert(nk =~= old_keys.insert(pos, key@));
            assert(cur.value_seq() =~= old_vals.insert(pos, value));
            assert forall|a: int, b: int| 0 <= a < b < nk.len() implies seq_lt(
                #[trigger] nk[a],
                #[trigger] nk[b],
            ) by {
                if a < pos && b < pos {
                } else if a < pos && b == pos {
                } else if a < pos && b > pos {
                    if b - 1 > pos {
                        assert(seq_lt(old_keys[pos], old_keys[b - 1]));
                        lemma_seq_lt_transitive(key@, old_keys[pos], old_keys[b - 1]);
                    }
                    lemma_seq_lt_transitive(nk[a], key@, nk[b]);
                } else if a == pos {
                    if b - 1 > pos {
                        assert(seq_lt(old_keys[pos], old_keys[b - 1]));
                        lemma_seq_lt_transitive(key@, old_keys[pos], old_keys[b - 1]);
                    }
                } else {
                }
            }
            assert(cur.wf());
            assert(!old_keys.contains(key@)) by {
                if old_keys.contains(key@) {
                    let j = old_keys.index_of(key@);
                    if j < pos {
                        lemma_seq_lt_irreflexive(key@);
                    } else if j == pos {
                        lemma_seq_lt_irreflexive(key@);
                    } else {
                        assert(seq_lt(old_keys[pos], old_keys[j]));
                        lemma_seq_lt_transitive(key@, old_keys[pos], old_keys[j]);
                        lemma_seq_lt_irreflexive(key@);
                    }
                }
            }
            assert forall|kk: Seq<char>| #![trigger cur@[kk]] cur@.contains_key(kk) implies cur@[kk] == m0@.insert(key@, value)[kk] by {
                let j = nk.index_of(kk);
                cur.lemma_entry(j);
                if j < pos {
                    m0.lemma_entry(j);
                } else if j > pos {
                    m0.lemma_entry(j - 1);
                }
            }
            assert forall|kk: Seq<char>| #[trigger] m0@.insert(key@, value).contains_key(kk) implies cur@.contains_key(kk) by {
                if kk != key@ {
                    let j = old_keys.index_of(kk);
                    if j < pos {
                        assert(nk[j] == kk);
                    } else {
                        assert(nk[j + 1] == kk);
                    }
                } else {
                    assert(nk[pos] == kk);
                }
            }
            assert(cur@ =~= m0@.insert(key@, value));
        }
    }

    /// Removes a key, returning its value if it was present (`BTreeMap::remove`).
    pub fn remove(&mut self, key: &str) -> (r: Option<V>)
        ensures
            final(self)@ == old(self)@.remove(key@),
            match r {
                Some(v) => old(self)@.contains_key(key@) && v == old(self)@[key@],
                None => !old(self)@.contains_key(key@),
            },
    {
        proof {
            use_type_invariant(&*self);
        }
        let mut e: Vec<(String, V)> = Vec::new();
        std::mem::swap(&mut e, &mut self.entries);
        let r = Self::remove_entries(&mut e, key);
        self.entries = e;
        r
    }

    fn remove_entries(e: &mut Vec<(String, V)>, key: &str) -> (r: Option<V>)
        requires
            (StringMap { entries: *old(e) }).wf(),
        ensures
            (StringMap { entries: *final(e) }).wf(),
            (StringMap { entries: *final(e) })@ == (StringMap { entries: *old(e) })@.remove(key@),
            match r {
                Some(v) => (StringMap { entries: *old(e) })@.contains_key(key@) && v == (StringMap { entries: *old(e) })@[key@],
                None => !(StringMap { entries: *old(e) })@.contains_key(key@),
            },
    {
        let ghost m0 = StringMap { entries: *e };
        let k = chars_of(key);
        match Self::position_in(e, &k) {
            None => {
                None
            },
            Some(i) => {
                let ghost old_keys = m0.key_seq();
                let ghost old_vals = m0.value_seq();
                proof {
                    m0.lemma_entry(i as int);
                }
                let (_, v) = e.remove(i);
                proof {
                    let cur = StringMap { entries: *e };
                    let nk = cur.key_seq();
                    assert(nk =~= old_keys.remove(i as int));
                    assert(cur.value_seq() =~= old_vals.remove(i as int));
                    assert forall|a: int, b: int| 0 <= a < b < nk.len() implies seq_lt(
                        #[trigger] nk[a],
                        #[trigger] nk[b],
                    ) by {
                        let oa = if a < i { a } else { a + 1 };
                        let ob = if b < i { b } else { b + 1 };
                        assert(nk[a] == old_keys[oa]);
                        assert(nk[b] == old_keys[ob]);
                    }
                    assert(cur.wf());
                    assert forall|kk: Seq<char>| #![trigger cur@[kk]] cur@.contains_key(kk) implies cur@[kk] == m0@.remove(key@)[kk] by {
                        let j = nk.index_of(kk);
                        cur.lemma_entry(j);
                        if j < i {
                            m0.lemma_entry(j);
                        } else {
                            m0.lemma_entry(j + 1);
                        }
                    }
                    assert forall|kk: Seq<char>| #[trigger] cur@.contains_key(kk) <==> m0@.remove(key@).contains_key(kk) by {
                        if cur@.contains_key(kk) {
                            let j = nk.index_of(kk);
                            let oj = if j < i { j } else { j + 1 };
                            assert(old_keys[oj] == kk);
                            m0.lemma_distinct(oj, i as int);
                        }
                        if m0@.remove(key@).contains_key(kk) {
                            let j = old_keys.index_of(kk);
                            if j < i {
                                assert(nk[j] == kk);
                            } else {
                                assert(nk[j - 1] == kk);
                            }
                        }
                    }
                    assert(cur@ =~= m0@.remove(key@));
                }
                Some(v)
            },
        }
    }

    /// The keys in ascending order (`BTreeMap::keys`).
    pub fn keys(&self) -> (r: Vec<String>)
        ensures
            r@.map_values(|s: String| s@) == self.sorted_keys(),
    {
        proof {
            use_type_invariant(self);
        }
        let mut r: Vec<String> = Vec::new();
        let mut i: usize = 0;
        while i < self.entries.len()
            invariant
                i <= self.entries@.len(),
                r@.map_values(|s: String| s@) == self.key_seq().take(i as int),
            decreases self.entries@.len() - i,
        {
            let ghost before = r@;
            let key = self.entries[i].0.clone();
            assert(key@ == self.key_seq()[i as int]);
            r.push(key);
            assert(r@ == before.push(key));
            i = i + 1;
            assert(r@.map_values(|s: String| s@) =~= before.map_values(|s: String| s@).push(key@));
            assert(self.key_seq().take(i as int) =~= self.key_seq().take(i - 1).push(key@));
        }
        assert(self.key_seq().take(i as int) =~= self.key_seq());
        r
    }
}

impl<V> View for StringMap<V> {
    type V = Map<Seq<char>, V>;

    closed spec fn view(&self) -> Map<Seq<char>, V> {
        self.as_map()
    }
}

impl<V: Clone> Clone for StringMap<V> {
    /// A copy with the same keys, each value cloned.
    fn clone(&self) -> (out: Self)
        ensures
            out.sorted_keys() == self.sorted_keys(),
            out@.dom() == self@.dom(),
            forall|k: Seq<char>| #[trigger] self@.contains_key(k) ==> vstd::pervasive::cloned(self@[k], out@[k]),
    {
        let mut entries: Vec<(String, V)> = Vec::new();
        let mut i: usize = 0;
        while i < self.entries.len()
            invariant
                i <= self.entries@.len(),
                entries@.len() == i,
                forall|j: int| 0 <= j < i ==> (#[trigger] entries@[j]).0@ == self.entries@[j].0@,
                forall|j: int| 0 <= j < i ==> vstd::pervasive::cloned(self.entries@[j].1, #[trigger] entries@[j].1),
            decreases self.entries@.len() - i,
        {
            let k = self.entries[i].0.clone();
            let v = self.entries[i].1.clone();
            entries.push((k, v));
            i = i + 1;
        }
        proof {
            use_type_invariant(self);
        }
        assert((StringMap { entries }).key_seq() =~= self.key_seq());
        let out = StringMap { entries };
        assert(out@.dom() =~= self@.dom());
        assert forall|k: Seq<char>| #[trigger] self@.contains_key(k) implies vstd::pervasive::cloned(self@[k], out@[k]) by {
            let j = self.key_seq().index_of(k);
            assert(self.key_seq()[j] == k);
            assert(out.value_seq()[j] == out.entries@[j].1);
            assert(self.value_seq()[j] == self.entries@[j].1);
        }
        out
    }
}

/// Two maps of strings with the same keys whose values are clones of each other are equal as
/// maps.
pub proof fn lemma_cloned_strings(a: Map<Seq<char>, String>, b: Map<Seq<char>, String>)
    requires
        a.dom() == b.dom(),
        forall|k: Seq<char>| #[trigger] a.contains_key(k) ==> vstd::pervasive::cloned(a[k], b[k]),
    ensures
        a == b,
{
    assert forall|k: Seq<char>| #[trigger] a.contains_key(k) implies a[k] == b[k] by {
        assert(vstd::pervasive::cloned(a[k], b[k]));
    }
    assert(a =~= b);
}

} // verus!
