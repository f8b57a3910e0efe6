//! A table keyed by socket address, walked in the order in which the keys came in.
use crate::transport::SocketAddr;
use vstd::prelude::*;

verus! {

/// A map from socket addresses to values of type `V`.
pub struct ConnectionTable<V> {
    entries: Vec<(SocketAddr, V)>,
}

/// The place of `key` in `keys`, if it is there.
spec fn place_of(keys: Seq<SocketAddr>, key: SocketAddr) -> int {
    choose|i: int| 0 <= i < keys.len() && keys[i] == key
}

impl<V> View for ConnectionTable<V> {
    type V = Map<SocketAddr, V>;

    /// The table as a map.
    closed spec fn view(&self) -> Map<SocketAddr, V> {
        Map::new(
            |k: SocketAddr| self.spec_keys().contains(k),
            |k: SocketAddr| self.entries@[place_of(self.spec_keys(), k)].1,
        )
    }
}

impl<V> ConnectionTable<V> {
    /// The keys, oldest first.
    pub closed spec fn spec_keys(&self) -> Seq<SocketAddr> {
        self.entries@.map_values(|e: (SocketAddr, V)| e.0)
    }

    /// No key occurs twice.
    pub closed spec fn wf(&self) -> bool {
        self.spec_keys().no_duplicates()
    }

    /// In a well-formed table the keys are distinct and are those of the map.
    pub proof fn lemma_keys(&self)
        requires
            self.wf(),
        ensures
            self.spec_keys().no_duplicates(),
            forall|k: SocketAddr| self@.dom().contains(k) <==> self.spec_keys().contains(k),
    {
    }

    /// The value under the key of entry `i` is that of entry `i`.
    proof fn lemma_entry(&self, i: int)
        requires
            self.wf(),
            0 <= i < self.entries@.len(),
        ensures
            self.spec_keys()[i] == self.entries@[i].0,
            self@.dom().contains(self.entries@[i].0),
            self@[self.entries@[i].0] == self.entries@[i].1,
            place_of(self.spec_keys(), self.entries@[i].0) == i,
    {
        let keys = self.spec_keys();
        assert(keys[i] == self.entries@[i].0);
        assert(keys.contains(keys[i]));
        let j = place_of(keys, keys[i]);
        assert(0 <= j < keys.len() && keys[j] == keys[i]);
    }

    /// An empty table.
    pub fn new() -> (table: Self)
        ensures
            table.wf(),
            table@ == Map::<SocketAddr, V>::empty(),
            table.spec_keys() == Seq::<SocketAddr>::empty(),
    {
        let table = ConnectionTable { entries: Vec::new() };
        assert(table.spec_keys() =~= Seq::<SocketAddr>::empty());
        assert(table@ =~= Map::<SocketAddr, V>::empty());
        table
    }

    /// Where the entry with the key `key` stands.
    fn find(&self, key: &SocketAddr) -> (place: Option<usize>)
        ensures
            match place {
                Some(i) => i < self.entries@.len() && self.entries@[i as int].0 == *key,
                None => !self.spec_keys().contains(*key),
            },
    {
        let mut i: usize = 0;
        while i < self.entries.len()
            invariant
                i <= self.entries.len(),
                forall|j: int| 0 <= j < i ==> #[trigger] self.spec_keys()[j] != *key,
            decreases self.entries.len() - i,
        {
            if self.entries[i].0 == *key {
                return Some(i);
            }
            i += 1;
        }
        None
    }

    /// Whether there is an entry with the key `key`.
    pub fn contains_key(&self, key: &SocketAddr) -> (found: bool)
        requires
            self.wf(),
        ensures
            found == self@.dom().contains(*key),
    {
        match self.find(key) {
            Some(i) => {
                proof {
                    self.lemma_entry(i as int);
                }
                true
            },
            None => false,
        }
    }

    /// The value under `key`.
    pub fn get(&self, key: &SocketAddr) -> (value: Option<&V>)
        requires
            self.wf(),
        ensures
            match value {
                Some(v) => self@.dom().contains(*key) && *v == self@[*key],
                None => !self@.dom().contains(*key),
            },
    {
        match self.find(key) {
            Some(i) => {
                proof {
                    self.lemma_entry(i as int);
                }
                Some(&self.entries[i].1)
            },
            None => None,
        }
    }

    /// The value under `key`, to be changed in place.
    pub fn get_mut(&mut self, key: &SocketAddr) -> (value: Option<&mut V>)
        requires
            old(self).wf(),
        ensures
            final(self).wf(),
            final(self).spec_keys() == old(self).spec_keys(),
            match value {
                Some(v) => {
                    &&& old(self)@.dom().contains(*key)
                    &&& *v == old(self)@[*key]
                    &&& final(self)@ == old(self)@.insert(*key, *final(v))
                },
                None => {
                    &&& !old(self)@.dom().contains(*key)
                    &&& final(self)@ == old(self)@
                },
            },
    {
        let place = self.find(key);
        match place {
            Some(i) => {
                proof {
                    self.lemma_entry(i as int);
                    Self::lemma_update(*self, i as int);
                }
                Some(&mut self.entries[i].1)
            },
            None => None,
        }
    }

    /// Replacing the value of entry `i` keeps the keys and replaces the value under its key.
    proof fn lemma_update(self, i: int)
        requires
            self.wf(),
            0 <= i < self.entries@.len(),
        ensures
            forall|t: Self, v: V|
                t.entries@ == #[trigger] self.entries@.update(i, (self.entries@[i].0, v)) ==> {
                    &&& #[trigger] t.wf()
                    &&& t.spec_keys() == self.spec_keys()
                    &&& t@ == self@.insert(self.entries@[i].0, v)
                },
    {
        assert forall|t: Self, v: V|
            t.entries@ == #[trigger] self.entries@.update(i, (self.entries@[i].0, v)) implies {
            &&& #[trigger] t.wf()
            &&& t.spec_keys() == self.spec_keys()
            &&& t@ == self@.insert(self.entries@[i].0, v)
        } by {
            assert(t.spec_keys() =~= self.spec_keys());
            self.lemma_entry(i);
            t.lemma_entry(i);
            let updated = self@.insert(self.entries@[i].0, v);
            assert(t@.dom() =~= updated.dom());
            assert forall|k: SocketAddr| t@.dom().contains(k) implies t@[k] == updated[k] by {
                let j = place_of(self.spec_keys(), k);
                assert(self.spec_keys()[j] == k);
            }
            assert(t@ =~= updated);
        }
    }

    /// Adds an entry whose key is new.
    pub fn insert(&mut self, key: SocketAddr, value: V)
        requires
            old(self).wf(),
            !old(self)@.dom().contains(key),
        ensures
            final(self).wf(),
            final(self).spec_keys() == old(self).spec_keys().push(key),
            final(self)@ == old(self)@.insert(key, value),
    {
        let ghost before = *self;
        self.entries.push((key, value));
        proof {
            assert(self.spec_keys() =~= before.spec_keys().push(key));
            assert(self.spec_keys().no_duplicates());
            self.lemma_entry(before.entries@.len() as int);
            let grown = before@.insert(key, value);
            assert forall|k: SocketAddr| #[trigger] self@.dom().contains(k) == grown.dom().contains(
                k,
            ) && (grown.dom().contains(k) ==> self@[k] == grown[k]) by {
                if self.spec_keys().contains(k) {
                    let j = place_of(self.spec_keys(), k);
                    self.lemma_entry(j);
                    if j < before.entries@.len() {
                        before.lemma_entry(j);
                    }
                }
                if before.spec_keys().contains(k) {
                    let j = place_of(before.spec_keys(), k);
                    before.lemma_entry(j);
                    self.lemma_entry(j);
                }
            }
            assert(self@ =~= grown);
        }
    }

    /// Takes out the entry with the key `key`.
    pub fn remove(&mut self, key: &SocketAddr) -> (value: Option<V>)
        requires
            old(self).wf(),
        ensures
            final(self).wf(),
            final(self).spec_keys() == old(self).spec_keys().remove_value(*key),
            final(self)@ == old(self)@.remove(*key),
            match value {
                Some(v) => old(self)@.dom().contains(*key) && v == old(self)@[*key],
                None => !old(self)@.dom().contains(*key),
            },
    {
        let ghost before = *self;
        match self.find(key) {
            Some(i) => {
                proof {
                    self.lemma_entry(i as int);
                }
                let (_, value) = self.entries.remove(i);
                proof {
                    let keys = before.spec_keys();
                    assert(keys.contains(*key));
                    keys.index_of_first_ensures(*key);
                    assert(keys.index_of_first(*key) == Some(i as int));
                    assert(self.spec_keys() =~= keys.remove(i as int));
                    assert(keys.remove_value(*key) == keys.remove(i as int));
                    assert forall|a: int, b: int|
                        0 <= a < self.spec_keys().len() && 0 <= b < self.spec_keys().len() && a
                            != b implies self.spec_keys()[a] != self.spec_keys()[b] by {
                        let a0 = if a < i { a } else { a + 1 };
                        let b0 = if b < i { b } else { b + 1 };
                        assert(self.spec_keys()[a] == keys[a0]);
                        assert(self.spec_keys()[b] == keys[b0]);
                    }
                    assert(self.wf());
                    let shrunk = before@.remove(*key);
                    assert forall|k: SocketAddr| #[trigger] self@.dom().contains(k)
                        == shrunk.dom().contains(k) && (shrunk.dom().contains(k) ==> self@[k]
                        == shrunk[k]) by {
                        if keys.contains(k) && k != *key {
                            let j = place_of(keys, k);
                            before.lemma_entry(j);
                            self.lemma_entry(if j < i { j } else { j - 1 });
                        }
                        if self.spec_keys().contains(k) {
                            let j = place_of(self.spec_keys(), k);
                            self.lemma_entry(j);
                            before.lemma_entry(if j < i { j } else { j + 1 });
                        }
                    }
                    assert(self@ =~= shrunk);
                }
                Some(value)
            },
            None => {
                proof {
                    before.spec_keys().index_of_first_ensures(*key);
                    assert(self@ =~= before@.remove(*key));
                }
                None
            },
        }
    }

    /// The keys, oldest first.
    pub fn keys(&self) -> (keys: Vec<SocketAddr>)
        ensures
            keys@ == self.spec_keys(),
    {
        let mut keys: Vec<SocketAddr> = Vec::new();
        let mut i: usize = 0;
        while i < self.entries.len()
            invariant
                i <= self.entries.len(),
                keys@ == self.spec_keys().take(i as int),
            decreases self.entries.len() - i,
        {
            keys.push(self.entries[i].0);
            i += 1;
            assert(keys@ =~= self.spec_keys().take(i as int));
        }
        assert(self.spec_keys().take(self.entries.len() as int) =~= self.spec_keys());
        keys
    }

    /// The oldest key.
    pub fn first_key(&self) -> (key: Option<SocketAddr>)
        ensures
            match key {
                Some(k) => self.spec_keys().len() > 0 && k == self.spec_keys()[0],
                None => self.spec_keys().len() == 0,
            },
    {
        if self.entries.len() > 0 {
            Some(self.entries[0].0)
        } else {
            None
        }
    }
}

} // verus!
