//! A small table from keys to values.
use vstd::prelude::*;

use crate::outpoint::{same_hash, OutPoint};

verus! {

/// A key that can be compared.
pub trait Key: Sized {
    /// Whether two keys are the same.
    fn same(&self, other: &Self) -> (same: bool)
        ensures
            same == (*self == *other),
    ;
}

impl Key for [u8; 32] {
    fn same(&self, other: &Self) -> (same: bool) {
        same_hash(self, other)
    }
}

impl Key for OutPoint {
    fn same(&self, other: &Self) -> (same: bool) {
        let same = self.index == other.index && same_hash(&self.txid, &other.txid);
        same
    }
}

/// A table from keys to values, in which no key occurs twice.
pub struct Table<K, V> {
    entries: Vec<(K, V)>,
}

impl<K: Key, V> Table<K, V> {
    /// No key occurs twice.
    pub closed spec fn wf(&self) -> bool {
        forall|i: int, j: int|
            0 <= i < j < self.entries@.len() ==> (#[trigger] self.entries@[i]).0 != (
            #[trigger] self.entries@[j]).0
    }

    /// Whether entry `i` is the one of `key`.
    spec fn holds(entries: Seq<(K, V)>, key: K, i: int) -> bool {
        0 <= i < entries.len() && entries[i].0 == key
    }

    /// The place of a key.
    spec fn place(entries: Seq<(K, V)>, key: K) -> int {
        choose|i: int| Self::holds(entries, key, i)
    }

    /// The table as a map.
    pub closed spec fn view(&self) -> Map<K, V> {
        Map::new(
            |key: K| exists|i: int| Self::holds(self.entries@, key, i),
            |key: K| self.entries@[Self::place(self.entries@, key)].1,
        )
    }

    /// What the map says of an entry.
    proof fn lemma_entry(&self, i: int)
        requires
            self.wf(),
            0 <= i < self.entries@.len(),
        ensures
            self.view().contains_key(self.entries@[i].0),
            self.view()[self.entries@[i].0] == self.entries@[i].1,
            Self::place(self.entries@, self.entries@[i].0) == i,
    {
        let key = self.entries@[i].0;
        assert(Self::holds(self.entries@, key, i));
        let j = Self::place(self.entries@, key);
        assert(Self::holds(self.entries@, key, j));
    }

    /// An empty table.
    pub fn new() -> (table: Self)
        ensures
            table.wf(),
            table@ == Map::<K, V>::empty(),
    {
        let table = Table { entries: Vec::new() };
        assert(table@ =~= Map::<K, V>::empty());
        table
    }

    /// The place of a key, or `None` if it has no entry.
    fn find(&self, key: &K) -> (place: Option<usize>)
        requires
            self.wf(),
        ensures
            place is Some <==> self@.contains_key(*key),
            place matches Some(i) ==> i < self.entries@.len() && self.entries@[i as int].0 == *key
                && self@[*key] == self.entries@[i as int].1,
    {
        let mut i: usize = 0;
        while i < self.entries.len()
            invariant
                self.wf(),
                i <= self.entries@.len(),
                forall|j: int| 0 <= j < i ==> (#[trigger] self.entries@[j]).0 != *key,
            decreases self.entries@.len() - i,
        {
            if self.entries[i].0.same(key) {
                proof {
                    self.lemma_entry(i as int);
                }
                return Some(i);
            }
            i += 1;
        }
        assert(!exists|j: int| Self::holds(self.entries@, *key, j));
        None
    }

    /// The value of a key.
    pub fn get(&self, key: &K) -> (value: Option<&V>)
        requires
            self.wf(),
        ensures
            value is Some <==> self@.contains_key(*key),
            value matches Some(v) ==> *v == self@[*key],
    {
        match self.find(key) {
            Some(i) => Some(&self.entries[i].1),
            None => None,
        }
    }

    /// Takes a key out of the table, and gives its value.
    pub fn remove(&mut self, key: &K) -> (value: Option<V>)
        requires
            old(self).wf(),
        ensures
            final(self).wf(),
            final(self)@ == old(self)@.remove(*key),
            value is Some <==> old(self)@.contains_key(*key),
            value matches Some(v) ==> v == old(self)@[*key],
    {
        match self.find(key) {
            Some(i) => {
                let ghost before = *self;
                let entry = self.entries.remove(i);
                proof {
                    self.lemma_removed(before, i as int);
                }
                Some(entry.1)
            },
            None => {
                assert(self@ =~= old(self)@.remove(*key));
                None
            },
        }
    }

    proof fn lemma_removed(&self, before: Self, i: int)
        requires
            before.wf(),
            0 <= i < before.entries@.len(),
            self.entries@ == before.entries@.remove(i),
        ensures
            self.wf(),
            self@ == before@.remove(before.entries@[i].0),
    {
        let gone = before.entries@[i].0;
        assert forall|a: int, b: int| 0 <= a < b < self.entries@.len() implies (
        #[trigger] self.entries@[a]).0 != (#[trigger] self.entries@[b]).0 by {
            let old_a = if a < i { a } else { a + 1 };
            let old_b = if b < i { b } else { b + 1 };
            assert(self.entries@[a] == before.entries@[old_a]);
            assert(self.entries@[b] == before.entries@[old_b]);
        }
        let after = before@.remove(gone);
        assert forall|key: K|
            #![trigger self@.dom().contains(key)]
            #![trigger after.dom().contains(key)]
            self@.dom().contains(key) == after.dom().contains(key) && (self@.dom().contains(key)
                ==> self@[key] == after[key]) by {
            if self@.contains_key(key) {
                let a = Self::place(self.entries@, key);
                assert(Self::holds(self.entries@, key, a));
                let old_a = if a < i { a } else { a + 1 };
                assert(before.entries@[old_a] == self.entries@[a]);
                self.lemma_entry(a);
                before.lemma_entry(old_a);
                before.lemma_entry(i);
            }
            if after.contains_key(key) {
                let old_a = Self::place(before.entries@, key);
                assert(Self::holds(before.entries@, key, old_a));
                let a = if old_a < i { old_a } else { old_a - 1 };
                assert(Self::holds(self.entries@, key, a));
            }
        }
        assert(self@ =~= after);
    }

    /// Gives a key a value, in place of the one it had.
    pub fn insert(&mut self, key: K, value: V)
        requires
            old(self).wf(),
        ensures
            final(self).wf(),
            final(self)@ == old(self)@.insert(key, value),
    {
        let _ = self.remove(&key);
        let ghost before = *self;
        self.entries.push((key, value));
        proof {
            self.lemma_pushed(before, key, value);
            assert(self@ =~= old(self)@.insert(key, value));
        }
    }

    proof fn lemma_pushed(&self, before: Self, key: K, value: V)
        requires
            before.wf(),
            !before@.contains_key(key),
            self.entries@ == before.entries@.push((key, value)),
        ensures
            self.wf(),
            self@ == before@.insert(key, value),
    {
        let last = before.entries@.len() as int;
        assert forall|a: int, b: int| 0 <= a < b < self.entries@.len() implies (
        #[trigger] self.entries@[a]).0 != (#[trigger] self.entries@[b]).0 by {
            assert(self.entries@[a] == before.entries@[a]);
            if b == last {
                before.lemma_entry(a);
            } else {
                assert(self.entries@[b] == before.entries@[b]);
            }
        }
        let after = before@.insert(key, value);
        assert forall|k: K|
            #![trigger self@.dom().contains(k)]
            #![trigger after.dom().contains(k)]
            self@.dom().contains(k) == after.dom().contains(k) && (self@.dom().contains(k)
                ==> self@[k] == after[k]) by {
            if self@.contains_key(k) {
                let a = Self::place(self.entries@, k);
                assert(Self::holds(self.entries@, k, a));
                self.lemma_entry(a);
                if a < last {
                    assert(before.entries@[a] == self.entries@[a]);
                    before.lemma_entry(a);
                }
            }
            if after.contains_key(k) {
                if k == key {
                    assert(Self::holds(self.entries@, k, last));
                } else {
                    let a = Self::place(before.entries@, k);
                    assert(Self::holds(before.entries@, k, a));
                    assert(Self::holds(self.entries@, k, a));
                }
            }
        }
        assert(self@ =~= after);
    }
}

} // verus!
