//! A small keyed table: a finite map from keys to values, kept as two
//! parallel vectors with distinct keys.

use vstd::prelude::*;

use crate::types::{ContractMeta, DecodedEvent, VersionKey, same_contract_id};

verus! {

/// Keys that can be compared at run time by their views.
pub trait TableKey: View + Sized {
    /// Whether two keys are the same key.
    fn same_key(&self, other: &Self) -> (r: bool)
        ensures
            r == (self@ == other@),
    ;
}

/// Values that can be copied with their view kept.
pub trait TableValue: View + Sized {
    /// A copy of this value.
    fn duplicate_value(&self) -> (r: Self)
        ensures
            r@ == self@,
    ;
}

impl TableKey for [u8; 32] {
    fn same_key(&self, other: &Self) -> (r: bool) {
        same_contract_id(self, other)
    }
}

impl TableKey for u64 {
    fn same_key(&self, other: &Self) -> (r: bool) {
        *self == *other
    }
}

impl TableKey for VersionKey {
    fn same_key(&self, other: &Self) -> (r: bool) {
        self.same(other)
    }
}

impl TableValue for ContractMeta {
    fn duplicate_value(&self) -> (r: Self) {
        self.duplicate()
    }
}

impl TableValue for DecodedEvent {
    fn duplicate_value(&self) -> (r: Self) {
        self.duplicate()
    }
}

/// A finite map from keys to values.
pub struct Table<K: TableKey, V: TableValue> {
    keys: Vec<K>,
    vals: Vec<V>,
    contents: Ghost<Map<K::V, V::V>>,
}

impl<K: TableKey, V: TableValue> Table<K, V> {
    /// The entries of the table.
    pub closed spec fn view(&self) -> Map<K::V, V::V> {
        self.contents@
    }

    /// The keys are distinct and the vectors hold exactly the entries.
    pub closed spec fn wf(&self) -> bool {
        &&& self.keys@.len() == self.vals@.len()
        &&& forall|i: int, j: int|
            0 <= i < self.keys@.len() && 0 <= j < self.keys@.len() && i != j ==> #[trigger] self.keys@[i]@
                != #[trigger] self.keys@[j]@
        &&& forall|i: int|
            0 <= i < self.keys@.len() ==> {
                &&& self.contents@.contains_key(#[trigger] self.keys@[i]@)
                &&& self.contents@[self.keys@[i]@] == self.vals@[i]@
            }
        &&& forall|k: K::V|
            #[trigger] self.contents@.contains_key(k) ==> exists|i: int|
                0 <= i < self.keys@.len() && #[trigger] self.keys@[i]@ == k
    }

    /// An empty table.
    pub fn new() -> (t: Self)
        ensures
            t.wf(),
            t.view() == Map::<K::V, V::V>::empty(),
    {
        Table { keys: Vec::new(), vals: Vec::new(), contents: Ghost(Map::empty()) }
    }

    /// The number of entries.
    pub fn len(&self) -> (n: usize)
        requires
            self.wf(),
        ensures
            n == self.view().dom().len(),
    {
        proof {
            self.lemma_dom_is_keys();
        }
        self.keys.len()
    }

    proof fn lemma_dom_is_keys(&self)
        requires
            self.wf(),
        ensures
            self.view().dom() == self.keys@.map_values(|k: K| k@).to_set(),
            self.view().dom().len() == self.keys@.len(),
            self.view().dom().finite(),
    {
        let ks = self.keys@.map_values(|k: K| k@);
        assert forall|k: K::V| self.view().dom().contains(k) <==> ks.to_set().contains(k) by {
            if self.view().dom().contains(k) {
                let i = choose|i: int| 0 <= i < self.keys@.len() && #[trigger] self.keys@[i]@ == k;
                assert(ks[i] == k);
            }
            if ks.to_set().contains(k) {
                let i = choose|i: int| 0 <= i < ks.len() && ks[i] == k;
                assert(self.keys@[i]@ == k);
            }
        }
        assert(self.view().dom() =~= ks.to_set());
        assert forall|i: int, j: int| 0 <= i < ks.len() && 0 <= j < ks.len() && i != j implies ks[i]
            != ks[j] by {
            assert(ks[i] == self.keys@[i]@);
            assert(ks[j] == self.keys@[j]@);
        }
        assert(ks.no_duplicates());
        ks.unique_seq_to_set();
    }

    /// The position of a key, if the table holds it.
    fn find(&self, k: &K) -> (r: Option<usize>)
        requires
            self.wf(),
        ensures
            match r {
                Some(i) => i < self.keys@.len() && self.keys@[i as int]@ == k@,
                None => !self.view().contains_key(k@),
            },
    {
        let mut i: usize = 0;
        while i < self.keys.len()
            invariant
                self.wf(),
                i <= self.keys@.len(),
                forall|j: int| 0 <= j < i ==> #[trigger] self.keys@[j]@ != k@,
            decreases self.keys@.len() - i,
        {
            if self.keys[i].same_key(k) {
                return Some(i);
            }
            i = i + 1;
        }
        None
    }

    /// Whether the table holds the key.
    pub fn contains(&self, k: &K) -> (r: bool)
        requires
            self.wf(),
        ensures
            r == self.view().contains_key(k@),
    {
        match self.find(k) {
            Some(_) => true,
            None => false,
        }
    }

    /// The value under a key, if any.
    pub fn get(&self, k: &K) -> (r: Option<&V>)
        requires
            self.wf(),
        ensures
            r is Some <==> self.view().contains_key(k@),
            r matches Some(v) ==> v@ == self.view()[k@],
    {
        match self.find(k) {
            Some(i) => Some(&self.vals[i]),
            None => None,
        }
    }

    /// A copy of the value under a key, if any.
    pub fn get_copy(&self, k: &K) -> (r: Option<V>)
        requires
            self.wf(),
        ensures
            r is Some <==> self.view().contains_key(k@),
            r matches Some(v) ==> v@ == self.view()[k@],
    {
        match self.find(k) {
            Some(i) => Some(self.vals[i].duplicate_value()),
            None => None,
        }
    }

    /// Stores a value under a key, replacing any earlier value.
    pub fn insert(&mut self, k: K, v: V)
        requires
            old(self).wf(),
        ensures
            final(self).wf(),
            final(self).view() == old(self).view().insert(k@, v@),
    {
        let ghost new_contents = self.contents@.insert(k@, v@);
        match self.find(&k) {
            Some(i) => {
                self.vals.set(i, v);
                self.contents = Ghost(new_contents);
                assert forall|k2: K::V| #[trigger] self.contents@.contains_key(k2) implies exists|
                    j: int,
                | 0 <= j < self.keys@.len() && #[trigger] self.keys@[j]@ == k2 by {
                    if k2 == k@ {
                        assert(self.keys@[i as int]@ == k2);
                    } else {
                        assert(old(self).contents@.contains_key(k2));
                    }
                }
            },
            None => {
                let ghost n = self.keys@.len();
                self.keys.push(k);
                self.vals.push(v);
                self.contents = Ghost(new_contents);
                assert forall|k2: K::V| #[trigger] self.contents@.contains_key(k2) implies exists|
                    j: int,
                | 0 <= j < self.keys@.len() && #[trigger] self.keys@[j]@ == k2 by {
                    if k2 == k@ {
                        assert(self.keys@[n as int]@ == k2);
                    } else {
                        assert(old(self).contents@.contains_key(k2));
                        let j = choose|j: int|
                            0 <= j < old(self).keys@.len() && #[trigger] old(self).keys@[j]@ == k2;
                        assert(self.keys@[j]@ == k2);
                    }
                }
                assert forall|a: int, b: int|
                    0 <= a < self.keys@.len() && 0 <= b < self.keys@.len() && a != b implies #[trigger] self.keys@[a]@
                    != #[trigger] self.keys@[b]@ by {
                    if a == n {
                        assert(old(self).contents@.contains_key(old(self).keys@[b]@));
                    } else if b == n {
                        assert(old(self).contents@.contains_key(old(self).keys@[a]@));
                    }
                }
            },
        }
    }

    /// Removes the entry under a key, if any.
    pub fn remove(&mut self, k: &K)
        requires
            old(self).wf(),
        ensures
            final(self).wf(),
            final(self).view() == old(self).view().remove(k@),
    {
        match self.find(k) {
            Some(i) => {
                let ghost old_keys = self.keys@;
                let ghost last = (self.keys@.len() - 1) as int;
                self.keys.swap_remove(i);
                self.vals.swap_remove(i);
                self.contents = Ghost(self.contents@.remove(k@));
                assert forall|j: int| 0 <= j < self.keys@.len() implies #[trigger] self.keys@[j]@
                    != k@ by {
                    if j == i {
                        assert(self.keys@[j] == old_keys[last]);
                    } else {
                        assert(self.keys@[j] == old_keys[j]);
                    }
                }
                assert forall|k2: K::V| #[trigger] self.contents@.contains_key(k2) implies exists|
                    j: int,
                | 0 <= j < self.keys@.len() && #[trigger] self.keys@[j]@ == k2 by {
                    assert(old(self).contents@.contains_key(k2));
                    let j = choose|j: int|
                        0 <= j < old_keys.len() && #[trigger] old_keys[j]@ == k2;
                    if j == last {
                        assert(self.keys@[i as int]@ == k2);
                    } else {
                        assert(self.keys@[j]@ == k2);
                    }
                }
                assert forall|a: int, b: int|
                    0 <= a < self.keys@.len() && 0 <= b < self.keys@.len() && a != b implies #[trigger] self.keys@[a]@
                    != #[trigger] self.keys@[b]@ by {
                    let oa = if a == i { last } else { a };
                    let ob = if b == i { last } else { b };
                    assert(self.keys@[a] == old_keys[oa]);
                    assert(self.keys@[b] == old_keys[ob]);
                }
            },
            None => {
                assert(self.contents@.remove(k@) =~= self.contents@);
            },
        }
    }
}

} // verus!
