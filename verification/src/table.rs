//! A finite map held as a list of key/value pairs with distinct keys: the
//! shape in which the registry keeps each kind of storage entry.

use vstd::prelude::*;

use crate::types::{Address, WrapKey};

verus! {

/// A key that can be compared for equality in executable code.
pub trait TableKey: Copy + Sized {
    fn same_key(&self, other: &Self) -> (r: bool)
        ensures
            r == (*self == *other),
    ;
}

impl TableKey for Address {
    fn same_key(&self, other: &Self) -> (r: bool) {
        self.same(other)
    }
}

impl TableKey for WrapKey {
    fn same_key(&self, other: &Self) -> (r: bool) {
        self.period == other.period && self.user.same(&other.user)
    }
}

/// The map that storing the pairs one after another produces: a later pair
/// overrides an earlier one with the same key.
pub open spec fn pairs_to_map<K, V>(pairs: Seq<(K, V)>) -> Map<K, V>
    decreases pairs.len(),
{
    if pairs.len() == 0 {
        Map::empty()
    } else {
        pairs_to_map(pairs.drop_last()).insert(pairs.last().0, pairs.last().1)
    }
}

/// A finite map from `K` to `V`.
pub struct Table<K, V> {
    entries: Vec<(K, V)>,
}

impl<K, V> View for Table<K, V> {
    type V = Map<K, V>;

    closed spec fn view(&self) -> Map<K, V> {
        Map::new(
            |k: K| exists|i: int| 0 <= i < self.entries@.len() && self.entries@[i].0 == k,
            |k: K|
                self.entries@[choose|i: int|
                    0 <= i < self.entries@.len() && self.entries@[i].0 == k].1,
        )
    }
}

impl<K: TableKey, V: Copy> Table<K, V> {
    /// No key occurs twice, and the map is finite.
    pub closed spec fn wf(&self) -> bool {
        &&& forall|i: int, j: int|
            0 <= i < self.entries@.len() && 0 <= j < self.entries@.len() && i != j
                ==> self.entries@[i].0 != self.entries@[j].0
        &&& self@.dom().finite()
    }

    proof fn lemma_index(&self, i: int)
        requires
            self.wf(),
            0 <= i < self.entries@.len(),
        ensures
            self@.contains_key(self.entries@[i].0),
            self@[self.entries@[i].0] == self.entries@[i].1,
    {
        let k = self.entries@[i].0;
        assert(self@.dom().contains(k));
        let j = choose|j: int| 0 <= j < self.entries@.len() && self.entries@[j].0 == k;
        assert(j == i);
    }

    /// The empty map.
    pub fn new() -> (t: Self)
        ensures
            t.wf(),
            t@ == Map::<K, V>::empty(),
    {
        let t = Table { entries: Vec::new() };
        assert(t@ =~= Map::<K, V>::empty());
        t
    }

    /// The map holding the pairs, stored one after another.
    pub fn from_pairs(pairs: &Vec<(K, V)>) -> (t: Self)
        ensures
            t.wf(),
            t@ == pairs_to_map(pairs@),
    {
        let mut t = Table::new();
        let mut i: usize = 0;
        while i < pairs.len()
            invariant
                0 <= i <= pairs@.len(),
                t.wf(),
                t@ == pairs_to_map(pairs@.take(i as int)),
            decreases pairs@.len() - i,
        {
            let (k, v) = pairs[i];
            t.set(k, v);
            assert(pairs@.take(i + 1).drop_last() =~= pairs@.take(i as int));
            i = i + 1;
        }
        assert(pairs@.take(pairs@.len() as int) =~= pairs@);
        t
    }

    fn find(&self, k: &K) -> (r: Option<usize>)
        requires
            self.wf(),
        ensures
            match r {
                Some(i) => i < self.entries@.len() && self.entries@[i as int].0 == *k,
                None => !self@.contains_key(*k),
            },
    {
        let mut i: usize = 0;
        while i < self.entries.len()
            invariant
                0 <= i <= self.entries@.len(),
                forall|j: int| 0 <= j < i ==> self.entries@[j].0 != *k,
            decreases self.entries@.len() - i,
        {
            if self.entries[i].0.same_key(k) {
                return Some(i);
            }
            i = i + 1;
        }
        None
    }

    /// The value stored under `k`, if any.
    pub fn get(&self, k: &K) -> (r: Option<V>)
        requires
            self.wf(),
        ensures
            r == self@.get(*k),
    {
        match self.find(k) {
            Some(i) => {
                proof {
                    self.lemma_index(i as int);
                }
                Some(self.entries[i].1)
            },
            None => None,
        }
    }

    /// Whether a value is stored under `k`.
    pub fn contains(&self, k: &K) -> (r: bool)
        requires
            self.wf(),
        ensures
            r == self@.contains_key(*k),
    {
        match self.find(k) {
            Some(i) => {
                proof {
                    self.lemma_index(i as int);
                }
                true
            },
            None => false,
        }
    }

    /// Stores `v` under `k`, replacing any earlier value.
    pub fn set(&mut self, k: K, v: V)
        requires
            old(self).wf(),
        ensures
            final(self).wf(),
            final(self)@ == old(self)@.insert(k, v),
    {
        let ghost before = self@;
        match self.find(&k) {
            Some(i) => {
                self.entries.set(i, (k, v));
                proof {
                    assert forall|kk: K| #[trigger] self@.contains_key(kk) <==> before.insert(k, v).contains_key(kk) by {
                        if before.contains_key(kk) {
                            let j = choose|j: int| 0 <= j < old(self).entries@.len() && old(self).entries@[j].0 == kk;
                            assert(self.entries@[j].0 == kk);
                        }
                        if self@.contains_key(kk) {
                            let j = choose|j: int| 0 <= j < self.entries@.len() && self.entries@[j].0 == kk;
                            if j != i {
                                assert(old(self).entries@[j].0 == kk);
                            }
                        }
                    }
                    assert(self.wf()) by {
                        assert(self@.dom() =~= before.insert(k, v).dom());
                    }
                    assert forall|kk: K| #[trigger] self@.contains_key(kk) implies self@[kk] == before.insert(k, v)[kk] by {
                        let j = choose|j: int| 0 <= j < self.entries@.len() && self.entries@[j].0 == kk;
                        self.lemma_index(j);
                        if j != i {
                            old(self).lemma_index(j);
                        }
                    }
                    assert(self@ =~= before.insert(k, v));
                }
            },
            None => {
                self.entries.push((k, v));
                proof {
                    let n = old(self).entries@.len() as int;
                    assert forall|kk: K| #[trigger] self@.contains_key(kk) <==> before.insert(k, v).contains_key(kk) by {
                        if before.contains_key(kk) {
                            let j = choose|j: int| 0 <= j < old(self).entries@.len() && old(self).entries@[j].0 == kk;
                            assert(self.entries@[j].0 == kk);
                        }
                        if kk == k {
                            assert(self.entries@[n].0 == kk);
                        }
                        if self@.contains_key(kk) {
                            let j = choose|j: int| 0 <= j < self.entries@.len() && self.entries@[j].0 == kk;
                            if j != n {
                                assert(old(self).entries@[j].0 == kk);
                            }
                        }
                    }
                    assert forall|a: int, b: int|
                        0 <= a < self.entries@.len() && 0 <= b < self.entries@.len() && a != b
                        implies self.entries@[a].0 != self.entries@[b].0 by {
                        if a == n {
                            old(self).lemma_index(b);
                        } else if b == n {
                            old(self).lemma_index(a);
                        }
                    }
                    assert(self.wf()) by {
                        assert(self@.dom() =~= before.insert(k, v).dom());
                    }
                    assert forall|kk: K| #[trigger] self@.contains_key(kk) implies self@[kk] == before.insert(k, v)[kk] by {
                        let j = choose|j: int| 0 <= j < self.entries@.len() && self.entries@[j].0 == kk;
                        self.lemma_index(j);
                        if j != n {
                            old(self).lemma_index(j);
                        }
                    }
                    assert(self@ =~= before.insert(k, v));
                }
            },
        }
    }

    /// Removes whatever is stored under `k`.
    pub fn remove(&mut self, k: &K)
        requires
            old(self).wf(),
        ensures
            final(self).wf(),
            final(self)@ == old(self)@.remove(*k),
    {
        let ghost before = self@;
        match self.find(k) {
            Some(i) => {
                self.entries.remove(i);
                proof {
                    let olds = old(self).entries@;
                    assert forall|j: int| 0 <= j < self.entries@.len() implies
                        #[trigger] self.entries@[j] == (if j < i { olds[j] } else { olds[j + 1] }) by {}
                    assert forall|a: int, b: int|
                        0 <= a < self.entries@.len() && 0 <= b < self.entries@.len() && a != b
                        implies self.entries@[a].0 != self.entries@[b].0 by {
                        let a2 = if a < i { a } else { a + 1 };
                        let b2 = if b < i { b } else { b + 1 };
                        assert(self.entries@[a] == olds[a2]);
                        assert(self.entries@[b] == olds[b2]);
                    }
                    assert forall|kk: K| #[trigger] self@.contains_key(kk) <==> before.remove(*k).contains_key(kk) by {
                        if before.remove(*k).contains_key(kk) {
                            let j = choose|j: int| 0 <= j < olds.len() && olds[j].0 == kk;
                            assert(j != i);
                            let j2 = if j < i { j } else { j - 1 };
                            assert(self.entries@[j2] == olds[j]);
                        }
                        if self@.contains_key(kk) {
                            let j = choose|j: int| 0 <= j < self.entries@.len() && self.entries@[j].0 == kk;
                            let j2 = if j < i { j } else { j + 1 };
                            assert(self.entries@[j] == olds[j2]);
                            assert(j2 != i);
                        }
                    }
                    assert(self.wf()) by {
                        assert(self@.dom() =~= before.remove(*k).dom());
                    }
                    assert forall|kk: K| #[trigger] self@.contains_key(kk) implies self@[kk] == before.remove(*k)[kk] by {
                        let j = choose|j: int| 0 <= j < self.entries@.len() && self.entries@[j].0 == kk;
                        self.lemma_index(j);
                        let j2 = if j < i { j } else { j + 1 };
                        assert(self.entries@[j] == olds[j2]);
                        old(self).lemma_index(j2);
                    }
                    assert(self@ =~= before.remove(*k));
                }
            },
            None => {
                assert(before.remove(*k) =~= before);
            },
        }
    }
}

} // verus!
