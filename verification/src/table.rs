//! A small map kept as a vector of distinct keys with their values, for
//! keys that are compared byte by byte (addresses, pair identifiers, and
//! pairs of them).

use vstd::prelude::*;
use crate::common::{bytes20_eq, bytes32_eq, Address};

verus! {

/// Keys whose equality can be decided at run time.
pub trait TableKey: Sized {
    /// Whether the two keys are equal.
    fn same(&self, other: &Self) -> (r: bool)
        ensures
            r == (*self == *other);
}

impl TableKey for Address {
    fn same(&self, other: &Self) -> (r: bool) {
        let r = bytes20_eq(&self.0, &other.0);
        proof {
            if r {
                assert(self.0 =~= other.0);
            }
        }
        r
    }
}

impl TableKey for [u8; 20] {
    fn same(&self, other: &Self) -> (r: bool) {
        let r = bytes20_eq(self, other);
        proof {
            if r {
                assert(*self =~= *other);
            }
        }
        r
    }
}

impl TableKey for [u8; 32] {
    fn same(&self, other: &Self) -> (r: bool) {
        let r = bytes32_eq(self, other);
        proof {
            if r {
                assert(*self =~= *other);
            }
        }
        r
    }
}

impl TableKey for u64 {
    fn same(&self, other: &Self) -> (r: bool) {
        *self == *other
    }
}

impl<A: TableKey, B: TableKey> TableKey for (A, B) {
    fn same(&self, other: &Self) -> (r: bool) {
        self.0.same(&other.0) && self.1.same(&other.1)
    }
}

/// The value of `k` in the list `s` (the last entry with that key).
pub open spec fn lookup<K, V>(s: Seq<(K, V)>, k: K) -> Option<V>
    decreases s.len(),
{
    if s.len() == 0 {
        None
    } else if s.last().0 == k {
        Some(s.last().1)
    } else {
        lookup(s.drop_last(), k)
    }
}

/// No key occurs twice in `s`.
pub open spec fn distinct_keys<K, V>(s: Seq<(K, V)>) -> bool {
    forall|i: int, j: int| 0 <= i < j < s.len() ==> (#[trigger] s[i]).0 != (#[trigger] s[j]).0
}

/// The map that the list `s` stands for.
pub open spec fn map_of<K, V>(s: Seq<(K, V)>) -> Map<K, V> {
    Map::new(|k: K| lookup(s, k) is Some, |k: K| lookup(s, k)->0)
}

/// In a list of distinct keys, the entry with key `k` gives its value.
pub proof fn lemma_lookup_at<K, V>(s: Seq<(K, V)>, i: int)
    requires
        distinct_keys(s),
        0 <= i < s.len(),
    ensures
        lookup(s, s[i].0) == Some(s[i].1),
    decreases s.len(),
{
    if i != s.len() - 1 {
        assert(s[i].0 != s[s.len() - 1].0);
        let t = s.drop_last();
        assert(t[i] == s[i]);
        lemma_lookup_at(t, i);
    }
}

/// A key that no entry has is absent.
pub proof fn lemma_lookup_absent<K, V>(s: Seq<(K, V)>, k: K)
    requires
        forall|i: int| 0 <= i < s.len() ==> (#[trigger] s[i]).0 != k,
    ensures
        lookup(s, k) is None,
    decreases s.len(),
{
    if s.len() > 0 {
        let t = s.drop_last();
        assert forall|i: int| 0 <= i < t.len() implies (#[trigger] t[i]).0 != k by {
            assert(t[i] == s[i]);
        }
        lemma_lookup_absent(t, k);
    }
}

/// `lookup` answers for `k` exactly when some entry has key `k`.
pub proof fn lemma_lookup_some<K, V>(s: Seq<(K, V)>, k: K)
    requires
        distinct_keys(s),
    ensures
        lookup(s, k) is Some <==> exists|i: int| 0 <= i < s.len() && (#[trigger] s[i]).0 == k,
{
    if exists|i: int| 0 <= i < s.len() && (#[trigger] s[i]).0 == k {
        let i = choose|i: int| 0 <= i < s.len() && (#[trigger] s[i]).0 == k;
        lemma_lookup_at(s, i);
    } else {
        lemma_lookup_absent(s, k);
    }
}

/// Replacing the value of entry `i` keeps the keys distinct and updates
/// that key in the map.
pub proof fn lemma_update_value<K, V>(s: Seq<(K, V)>, i: int, v: V)
    requires
        distinct_keys(s),
        0 <= i < s.len(),
    ensures
        distinct_keys(s.update(i, (s[i].0, v))),
        map_of(s.update(i, (s[i].0, v))) == map_of(s).insert(s[i].0, v),
{
    let t = s.update(i, (s[i].0, v));
    assert forall|a: int, b: int| 0 <= a < b < t.len() implies (#[trigger] t[a]).0 != (#[trigger] t[b]).0 by {
        assert(t[a].0 == s[a].0 && t[b].0 == s[b].0);
    }
    assert forall|q: K| #[trigger] lookup(t, q) == (if q == s[i].0 { Some(v) } else { lookup(s, q) }) by {
        if q == s[i].0 {
            lemma_lookup_at(t, i);
        } else if exists|j: int| 0 <= j < s.len() && (#[trigger] s[j]).0 == q {
            let j = choose|j: int| 0 <= j < s.len() && (#[trigger] s[j]).0 == q;
            lemma_lookup_at(s, j);
            assert(t[j] == s[j]);
            lemma_lookup_at(t, j);
        } else {
            lemma_lookup_absent(s, q);
            assert forall|j: int| 0 <= j < t.len() implies (#[trigger] t[j]).0 != q by {
                assert(t[j].0 == s[j].0);
            }
            lemma_lookup_absent(t, q);
        }
    }
    assert(map_of(t) =~= map_of(s).insert(s[i].0, v));
}

/// A map stored as a list of distinct keys with their values.
#[derive(Debug)]
pub struct Table<K, V> {
    entries: Vec<(K, V)>,
}

impl<K: TableKey, V> Table<K, V> {
    /// The entries, in storage order.
    pub closed spec fn spec_entries(&self) -> Seq<(K, V)> {
        self.entries@
    }

    /// The map the table stands for.
    pub open spec fn view(&self) -> Map<K, V> {
        map_of(self.spec_entries())
    }

    /// Keys are distinct.
    pub open spec fn wf(&self) -> bool {
        distinct_keys(self.spec_entries())
    }

    /// An empty table.
    pub fn new() -> (r: Self)
        ensures
            r.wf(),
            r.spec_entries().len() == 0,
            r.view() == Map::<K, V>::empty(),
    {
        let r = Table { entries: Vec::new() };
        assert(r.view() =~= Map::<K, V>::empty());
        r
    }

    /// The number of keys.
    pub fn len(&self) -> (r: usize)
        ensures
            r == self.spec_entries().len(),
    {
        self.entries.len()
    }

    /// The index of `k`, if it is stored.
    fn find(&self, k: &K) -> (r: Option<usize>)
        requires
            self.wf(),
        ensures
            match r {
                Some(i) => i < self.spec_entries().len() && self.spec_entries()[i as int].0 == *k,
                None => forall|i: int| 0 <= i < self.spec_entries().len() ==> (#[trigger] self.spec_entries()[i]).0 != *k,
            },
    {
        let mut i: usize = 0;
        while i < self.entries.len()
            invariant
                0 <= i <= self.entries@.len(),
                forall|j: int| 0 <= j < i ==> (#[trigger] self.entries@[j]).0 != *k,
            decreases self.entries@.len() - i,
        {
            if self.entries[i].0.same(k) {
                return Some(i);
            }
            i += 1;
        }
        None
    }

    /// The value of `k`.
    pub fn get(&self, k: &K) -> (r: Option<&V>)
        requires
            self.wf(),
        ensures
            r matches Some(v) ==> self.view().dom().contains(*k) && self.view()[*k] == *v,
            r is None ==> !self.view().dom().contains(*k),
    {
        match self.find(k) {
            Some(i) => {
                proof {
                    lemma_lookup_at(self.spec_entries(), i as int);
                }
                Some(&self.entries[i].1)
            },
            None => {
                proof {
                    lemma_lookup_absent(self.spec_entries(), *k);
                }
                None
            },
        }
    }

    /// A mutable reference to the value of `k`, if it is stored.
    pub fn get_mut(&mut self, k: &K) -> (r: Option<&mut V>)
        requires
            old(self).wf(),
        ensures
            r is Some <==> old(self).view().dom().contains(*k),
            r is Some ==> *r->0 == old(self).view()[*k],
            r is Some ==> final(self).wf() && final(self).view() == old(self).view().insert(*k, *final(r->0)),
            r is None ==> *final(self) == *old(self),
    {
        match self.find(k) {
            Some(i) => {
                let ghost s = self.entries@;
                proof {
                    lemma_lookup_at(s, i as int);
                }
                let r = &mut self.entries[i].1;
                proof {
                    lemma_update_value(s, i as int, *final(r));
                }
                Some(r)
            },
            None => {
                proof {
                    lemma_lookup_absent(self.spec_entries(), *k);
                }
                None
            },
        }
    }

    /// Whether `k` is stored.
    pub fn contains(&self, k: &K) -> (r: bool)
        requires
            self.wf(),
        ensures
            r == self.view().dom().contains(*k),
    {
        self.get(k).is_some()
    }

    /// Stores `v` under `k`, replacing any earlier value; a new key goes last.
    pub fn set(&mut self, k: K, v: V)
        requires
            old(self).wf(),
        ensures
            final(self).wf(),
            final(self).view() == old(self).view().insert(k, v),
            old(self).view().dom().contains(k) ==> final(self).spec_entries().len() == old(self).spec_entries().len(),
            !old(self).view().dom().contains(k) ==> final(self).spec_entries() == old(self).spec_entries().push((k, v)),
    {
        let ghost s = self.entries@;
        proof {
            lemma_lookup_some(s, k);
        }
        match self.find(&k) {
            Some(i) => {
                self.entries.set(i, (k, v));
                let ghost t = self.entries@;
                proof {
                    assert(distinct_keys(t)) by {
                        assert forall|a: int, b: int| 0 <= a < b < t.len() implies (#[trigger] t[a]).0 != (#[trigger] t[b]).0 by {
                            assert(t[a].0 == s[a].0 && t[b].0 == s[b].0);
                        }
                    }
                    assert forall|q: K| #[trigger] lookup(t, q) == (if q == k { Some(v) } else { lookup(s, q) }) by {
                        if q == k {
                            lemma_lookup_at(t, i as int);
                        } else {
                            lemma_lookup_some(s, q);
                            lemma_lookup_some(t, q);
                            if exists|j: int| 0 <= j < s.len() && (#[trigger] s[j]).0 == q {
                                let j = choose|j: int| 0 <= j < s.len() && (#[trigger] s[j]).0 == q;
                                lemma_lookup_at(s, j);
                                lemma_lookup_at(t, j);
                            } else {
                                assert forall|j: int| 0 <= j < t.len() implies (#[trigger] t[j]).0 != q by {
                                    if j != i { assert(t[j] == s[j]); }
                                }
                                lemma_lookup_absent(t, q);
                            }
                        }
                    }
                    assert(map_of(t) =~= map_of(s).insert(k, v));
                }
            },
            None => {
                self.entries.push((k, v));
                let ghost t = self.entries@;
                proof {
                    assert(distinct_keys(t)) by {
                        assert forall|a: int, b: int| 0 <= a < b < t.len() implies (#[trigger] t[a]).0 != (#[trigger] t[b]).0 by {
                            if b == s.len() {
                                assert(t[a] == s[a]);
                            } else {
                                assert(t[a] == s[a] && t[b] == s[b]);
                            }
                        }
                    }
                    assert forall|q: K| #[trigger] lookup(t, q) == (if q == k { Some(v) } else { lookup(s, q) }) by {
                        assert(t.drop_last() =~= s);
                    }
                    assert(map_of(t) =~= map_of(s).insert(k, v));
                }
            },
        }
    }

    /// Removes `k` (if stored); the other entries keep their order.
    pub fn remove(&mut self, k: &K)
        requires
            old(self).wf(),
        ensures
            final(self).wf(),
            final(self).view() == old(self).view().remove(*k),
    {
        let _ = self.take(k);
    }

    /// Removes `k` and hands back its value, if it was stored.
    pub fn take(&mut self, k: &K) -> (r: Option<V>)
        requires
            old(self).wf(),
        ensures
            final(self).wf(),
            final(self).view() == old(self).view().remove(*k),
            r matches Some(v) ==> old(self).view().dom().contains(*k) && old(self).view()[*k] == v,
            r is None ==> !old(self).view().dom().contains(*k),
    {
        let ghost s = self.entries@;
        match self.find(k) {
            Some(i) => {
                proof {
                    lemma_lookup_at(s, i as int);
                }
                let (_, v) = self.entries.remove(i);
                let ghost t = self.entries@;
                proof {
                    assert(distinct_keys(t)) by {
                        assert forall|a: int, b: int| 0 <= a < b < t.len() implies (#[trigger] t[a]).0 != (#[trigger] t[b]).0 by {
                            let a2 = if a < i { a } else { a + 1 };
                            let b2 = if b < i { b } else { b + 1 };
                            assert(t[a] == s[a2] && t[b] == s[b2]);
                        }
                    }
                    assert forall|q: K| #[trigger] lookup(t, q) == (if q == *k { None } else { lookup(s, q) }) by {
                        if q == *k {
                            assert forall|j: int| 0 <= j < t.len() implies (#[trigger] t[j]).0 != q by {
                                let j2 = if j < i { j } else { j + 1 };
                                assert(t[j] == s[j2]);
                            }
                            lemma_lookup_absent(t, q);
                        } else if exists|j: int| 0 <= j < s.len() && (#[trigger] s[j]).0 == q {
                            let j = choose|j: int| 0 <= j < s.len() && (#[trigger] s[j]).0 == q;
                            lemma_lookup_at(s, j);
                            let j2 = if j < i { j } else { j - 1 };
                            assert(t[j2] == s[j]);
                            lemma_lookup_at(t, j2);
                        } else {
                            assert forall|j: int| 0 <= j < t.len() implies (#[trigger] t[j]).0 != q by {
                                let j2 = if j < i { j } else { j + 1 };
                                assert(t[j] == s[j2]);
                            }
                            lemma_lookup_absent(t, q);
                            lemma_lookup_absent(s, q);
                        }
                    }
                    assert(map_of(t) =~= map_of(s).remove(*k));
                }
                Some(v)
            },
            None => {
                proof {
                    lemma_lookup_absent(s, *k);
                    assert(map_of(s) =~= map_of(s).remove(*k));
                }
                None
            },
        }
    }

    /// The key of entry `i`.
    pub fn key_at(&self, i: usize) -> (r: &K)
        requires
            i < self.spec_entries().len(),
        ensures
            *r == self.spec_entries()[i as int].0,
    {
        &self.entries[i].0
    }

    /// The value of entry `i`.
    pub fn value_at(&self, i: usize) -> (r: &V)
        requires
            i < self.spec_entries().len(),
        ensures
            *r == self.spec_entries()[i as int].1,
    {
        &self.entries[i].1
    }

    /// Every stored entry is in the map.
    pub proof fn lemma_entry_in_view(&self, i: int)
        requires
            self.wf(),
            0 <= i < self.spec_entries().len(),
        ensures
            self.view().dom().contains(self.spec_entries()[i].0),
            self.view()[self.spec_entries()[i].0] == self.spec_entries()[i].1,
    {
        lemma_lookup_at(self.spec_entries(), i);
    }

    /// Every key of the map is stored in some entry.
    pub proof fn lemma_view_has_entry(&self, k: K)
        requires
            self.wf(),
            self.view().dom().contains(k),
        ensures
            exists|i: int| 0 <= i < self.spec_entries().len() && (#[trigger] self.spec_entries()[i]).0 == k,
    {
        lemma_lookup_some(self.spec_entries(), k);
    }
}

} // verus!
