//! A small map kept as a list of (key, value) pairs.
//!
//! Keys are compared by their views and occur at most once. New keys are
//! appended, so iteration follows first-insertion order; replacing the value
//! of a present key keeps its position.

use vstd::prelude::*;

verus! {

/// Keys that can be compared at run time exactly as their views compare.
pub trait KeyEq: View + Sized {
    fn key_eq(&self, other: &Self) -> (r: bool)
        ensures
            r == (self@ == other@),
    ;

    fn key_clone(&self) -> (r: Self)
        ensures
            r@ == self@,
    ;
}

impl KeyEq for String {
    fn key_eq(&self, other: &Self) -> (r: bool) {
        *self == *other
    }

    fn key_clone(&self) -> (r: Self) {
        self.clone()
    }
}

impl KeyEq for u128 {
    fn key_eq(&self, other: &Self) -> (r: bool) {
        *self == *other
    }

    fn key_clone(&self) -> (r: Self) {
        *self
    }
}

/// Index of the first pair whose key has view `k`, or -1.
pub open spec fn first_index<K: View, V>(s: Seq<(K, V)>, k: K::V) -> int
    decreases s.len(),
{
    if s.len() == 0 {
        -1
    } else if s[0].0@ == k {
        0
    } else {
        let r = first_index(s.drop_first(), k);
        if r < 0 { -1 } else { r + 1 }
    }
}

/// The value stored under `k` (the first pair with that key).
pub open spec fn lookup<K: View, V>(s: Seq<(K, V)>, k: K::V) -> Option<V> {
    let i = first_index(s, k);
    if i < 0 { None } else { Some(s[i].1) }
}

/// The keys of `s` are pairwise distinct.
pub open spec fn keys_distinct<K: View, V>(s: Seq<(K, V)>) -> bool {
    forall|i: int, j: int| 0 <= i < j < s.len() ==> s[i].0@ != s[j].0@
}

/// The map that the pairs of `s` describe.
pub open spec fn pairs_map<K: View, V>(s: Seq<(K, V)>) -> Map<K::V, V> {
    Map::new(|k: K::V| lookup(s, k) is Some, |k: K::V| lookup(s, k)->0)
}

/// `first_index` is the least index holding key `k`, or -1 when none does.
pub proof fn lemma_first_index<K: View, V>(s: Seq<(K, V)>, k: K::V)
    ensures
        -1 <= first_index(s, k) < s.len(),
        first_index(s, k) >= 0 ==> s[first_index(s, k)].0@ == k,
        forall|j: int| 0 <= j < s.len() && (first_index(s, k) < 0 || j < first_index(s, k))
            ==> s[j].0@ != k,
    decreases s.len(),
{
    if s.len() > 0 && s[0].0@ != k {
        lemma_first_index(s.drop_first(), k);
        assert forall|j: int| 0 <= j < s.len() && (first_index(s, k) < 0 || j < first_index(s, k))
            implies s[j].0@ != k by {
            if j > 0 {
                assert(s[j] == s.drop_first()[j - 1]);
            }
        }
    }
}

/// An index holding `k` with no earlier index holding `k` is the first index.
pub proof fn lemma_first_index_unique<K: View, V>(s: Seq<(K, V)>, k: K::V, i: int)
    requires
        0 <= i < s.len(),
        s[i].0@ == k,
        forall|j: int| 0 <= j < i ==> s[j].0@ != k,
    ensures
        first_index(s, k) == i,
{
    lemma_first_index(s, k);
}

/// No index holding `k` means no first index.
pub proof fn lemma_first_index_none<K: View, V>(s: Seq<(K, V)>, k: K::V)
    requires
        forall|j: int| 0 <= j < s.len() ==> s[j].0@ != k,
    ensures
        first_index(s, k) == -1,
{
    lemma_first_index(s, k);
}

/// Appending a pair with a new key adds that key and keeps the others.
pub proof fn lemma_lookup_push<K: View, V>(s: Seq<(K, V)>, key: K, v: V, k: K::V)
    requires
        lookup(s, key@) is None,
    ensures
        lookup(s.push((key, v)), k) == if k == key@ { Some(v) } else { lookup(s, k) },
{
    let t = s.push((key, v));
    lemma_first_index(s, k);
    lemma_first_index(s, key@);
    if k == key@ {
        lemma_first_index_unique(t, k, s.len() as int);
    } else {
        if first_index(s, k) >= 0 {
            lemma_first_index_unique(t, k, first_index(s, k));
        } else {
            lemma_first_index_none(t, k);
        }
    }
}

/// Overwriting the pair of the first occurrence of a key with a pair of the
/// same key changes only that key's value.
pub proof fn lemma_lookup_update<K: View, V>(s: Seq<(K, V)>, i: int, key: K, v: V, k: K::V)
    requires
        0 <= i < s.len(),
        first_index(s, key@) == i,
    ensures
        lookup(s.update(i, (key, v)), k) == if k == key@ { Some(v) } else { lookup(s, k) },
{
    let t = s.update(i, (key, v));
    lemma_first_index(s, k);
    lemma_first_index(s, key@);
    if k == key@ {
        lemma_first_index_unique(t, k, i);
    } else {
        if first_index(s, k) >= 0 {
            lemma_first_index_unique(t, k, first_index(s, k));
        } else {
            lemma_first_index_none(t, k);
        }
    }
}

/// Removing the pair at the first occurrence of a key, in a list with
/// distinct keys, drops exactly that key.
pub proof fn lemma_lookup_remove<K: View, V>(s: Seq<(K, V)>, i: int, k: K::V)
    requires
        0 <= i < s.len(),
        keys_distinct(s),
    ensures
        lookup(s.remove(i), k) == if k == s[i].0@ { None } else { lookup(s, k) },
        keys_distinct(s.remove(i)),
{
    let t = s.remove(i);
    lemma_first_index(s, k);
    if k == s[i].0@ {
        assert forall|j: int| 0 <= j < t.len() implies t[j].0@ != k by {
            if j < i {
                assert(t[j] == s[j]);
            } else {
                assert(t[j] == s[j + 1]);
            }
        }
        lemma_first_index_none(t, k);
    } else {
        if first_index(s, k) >= 0 {
            let f = first_index(s, k);
            if f < i {
                lemma_first_index_unique(t, k, f);
            } else {
                assert(t[f - 1] == s[f]);
                assert forall|j: int| 0 <= j < f - 1 implies t[j].0@ != k by {
                    if j < i {
                        assert(t[j] == s[j]);
                    } else {
                        assert(t[j] == s[j + 1]);
                    }
                }
                lemma_first_index_unique(t, k, f - 1);
            }
        } else {
            assert forall|j: int| 0 <= j < t.len() implies t[j].0@ != k by {
                if j < i {
                    assert(t[j] == s[j]);
                } else {
                    assert(t[j] == s[j + 1]);
                }
            }
            lemma_first_index_none(t, k);
        }
    }
    assert forall|a: int, b: int| 0 <= a < b < t.len() implies t[a].0@ != t[b].0@ by {
        let sa = if a < i { a } else { a + 1 };
        let sb = if b < i { b } else { b + 1 };
        assert(t[a] == s[sa]);
        assert(t[b] == s[sb]);
    }
}

/// A map from keys to values kept as a list of pairs with distinct keys.
#[derive(Debug)]
pub struct AssocMap<K: KeyEq, V> {
    pairs: Vec<(K, V)>,
}

impl<K: KeyEq, V> View for AssocMap<K, V> {
    type V = Map<K::V, V>;

    closed spec fn view(&self) -> Map<K::V, V> {
        pairs_map(self.pairs@)
    }
}

impl<K: KeyEq, V> AssocMap<K, V> {
    #[verifier::type_invariant]
    spec fn inv(self) -> bool {
        keys_distinct(self.pairs@)
    }

    /// The pairs in iteration order.
    pub closed spec fn items(self) -> Seq<(K, V)> {
        self.pairs@
    }

    /// States that the view is the map the pairs describe, that the keys are
    /// distinct and that there is one key per pair.
    pub fn facts(&self)
        ensures
            self@ == pairs_map(self.items()),
            keys_distinct(self.items()),
            self.items().len() == self@.dom().len(),
            self@.dom().finite(),
    {
        proof {
            use_type_invariant(self);
            lemma_distinct_dom_len(self.pairs@);
        }
    }

    /// Creates an empty map.
    pub fn new() -> (m: Self)
        ensures
            m@ == Map::<K::V, V>::empty(),
            m.items() == Seq::<(K, V)>::empty(),
    {
        let m = AssocMap { pairs: Vec::new() };
        assert(m@ =~= Map::<K::V, V>::empty());
        m
    }

    /// Number of keys.
    pub fn len(&self) -> (n: usize)
        ensures
            n == self.items().len(),
            n == self@.dom().len(),
    {
        self.facts();
        self.pairs.len()
    }

    /// Position of `k` in the pair list.
    fn find(&self, k: &K) -> (r: Option<usize>)
        ensures
            r matches Some(i) ==> i == first_index(self.pairs@, k@) && i < self.pairs@.len()
                && self.pairs@[i as int].0@ == k@,
            r is None ==> first_index(self.pairs@, k@) == -1,
    {
        let mut i: usize = 0;
        while i < self.pairs.len()
            invariant
                i <= self.pairs@.len(),
                forall|j: int| 0 <= j < i ==> self.pairs@[j].0@ != k@,
            decreases self.pairs.len() - i,
        {
            if self.pairs[i].0.key_eq(k) {
                proof { lemma_first_index_unique(self.pairs@, k@, i as int); }
                return Some(i);
            }
            i = i + 1;
        }
        proof { lemma_first_index_none(self.pairs@, k@); }
        None
    }

    /// Returns `true` if `k` has a value.
    pub fn contains_key(&self, k: &K) -> (b: bool)
        ensures
            b == self@.contains_key(k@),
    {
        self.find(k).is_some()
    }

    /// The value stored under `k`.
    pub fn get(&self, k: &K) -> (r: Option<&V>)
        ensures
            r matches Some(v) ==> self@.contains_key(k@) && self@[k@] == *v,
            r is None <==> !self@.contains_key(k@),
    {
        match self.find(k) {
            Some(i) => Some(&self.pairs[i].1),
            None => None,
        }
    }

    /// Stores `v` under `k`, replacing any previous value.
    ///
    /// A present key keeps its position; a new key goes to the end.
    pub fn insert(&mut self, k: K, v: V)
        ensures
            final(self)@ == old(self)@.insert(k@, v),
            old(self)@.contains_key(k@) ==> final(self).items().len() == old(self).items().len(),
            !old(self)@.contains_key(k@) ==> final(self).items() == old(self).items().push((k, v)),
    {
        proof { use_type_invariant(&*self); }
        let ghost before = self.pairs@;
        match self.find(&k) {
            Some(i) => {
                proof {
                    lemma_first_index(before, k@);
                    assert forall|kk: K::V| #![auto] lookup(before.update(i as int, (k, v)), kk)
                        == if kk == k@ { Some(v) } else { lookup(before, kk) } by {
                        lemma_lookup_update(before, i as int, k, v, kk);
                    }
                    assert forall|a: int, b: int| 0 <= a < b < before.len() implies
                        before.update(i as int, (k, v))[a].0@ != before.update(i as int, (k, v))[b].0@ by {
                    }
                }
                let mut pairs: Vec<(K, V)> = Vec::new();
                std::mem::swap(&mut pairs, &mut self.pairs);
                pairs.set(i, (k, v));
                self.pairs = pairs;
                proof {
                    assert(self@ =~= old(self)@.insert(k@, v));
                }
            },
            None => {
                proof {
                    lemma_first_index(before, k@);
                    assert forall|kk: K::V| #![auto] lookup(before.push((k, v)), kk)
                        == if kk == k@ { Some(v) } else { lookup(before, kk) } by {
                        lemma_lookup_push(before, k, v, kk);
                    }
                }
                let mut pairs: Vec<(K, V)> = Vec::new();
                std::mem::swap(&mut pairs, &mut self.pairs);
                pairs.push((k, v));
                self.pairs = pairs;
                proof {
                    assert(self@ =~= old(self)@.insert(k@, v));
                }
            },
        }
    }

    /// Removes `k` and returns its value, if any.
    pub fn remove(&mut self, k: &K) -> (r: Option<V>)
        ensures
            final(self)@ == old(self)@.remove(k@),
            r matches Some(v) ==> old(self)@.contains_key(k@) && old(self)@[k@] == v,
            r is None <==> !old(self)@.contains_key(k@),
    {
        proof { use_type_invariant(&*self); }
        let ghost before = self.pairs@;
        match self.find(k) {
            Some(i) => {
                proof {
                    lemma_first_index(before, k@);
                    assert forall|kk: K::V| #![auto] lookup(before.remove(i as int), kk)
                        == if kk == k@ { None } else { lookup(before, kk) } by {
                        lemma_lookup_remove(before, i as int, kk);
                    }
                    lemma_lookup_remove(before, i as int, k@);
                }
                let mut pairs: Vec<(K, V)> = Vec::new();
                std::mem::swap(&mut pairs, &mut self.pairs);
                let (_, v) = pairs.remove(i);
                self.pairs = pairs;
                proof {
                    assert(self@ =~= old(self)@.remove(k@));
                }
                Some(v)
            },
            None => {
                proof {
                    assert(self@ =~= old(self)@.remove(k@));
                }
                None
            },
        }
    }

    /// The value at position `i` of the iteration order.
    pub fn value_at(&self, i: usize) -> (r: &V)
        requires
            i < self.items().len(),
        ensures
            *r == self.items()[i as int].1,
    {
        &self.pairs[i].1
    }

    /// The key at position `i` of the iteration order.
    pub fn key_at(&self, i: usize) -> (r: &K)
        requires
            i < self.items().len(),
        ensures
            *r == self.items()[i as int].0,
    {
        &self.pairs[i].0
    }
}

/// With distinct keys, the map has one key per pair.
pub proof fn lemma_distinct_dom_len<K: View, V>(s: Seq<(K, V)>)
    requires
        keys_distinct(s),
    ensures
        pairs_map(s).dom().len() == s.len(),
        pairs_map(s).dom().finite(),
    decreases s.len(),
{
    if s.len() == 0 {
        assert(pairs_map(s).dom() =~= Set::<K::V>::empty());
    } else {
        let t = s.drop_last();
        let last = s.last();
        assert(keys_distinct(t));
        lemma_distinct_dom_len(t);
        assert(s == t.push(last));
        lemma_first_index(t, last.0@);
        assert forall|j: int| 0 <= j < t.len() implies t[j].0@ != last.0@ by {
            assert(t[j] == s[j]);
        }
        lemma_first_index_none(t, last.0@);
        assert forall|kk: K::V| #![auto] lookup(t.push(last), kk)
            == if kk == last.0@ { Some(last.1) } else { lookup(t, kk) } by {
            lemma_lookup_push(t, last.0, last.1, kk);
        }
        assert(pairs_map(s).dom() =~= pairs_map(t).dom().insert(last.0@));
    }
}

} // verus!
