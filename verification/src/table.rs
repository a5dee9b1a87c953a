use crate::key::Key;
use std::collections::HashMap;
use vstd::prelude::*;

verus! {

/// A hash table from [`Key`] to `V`.
///
/// The table is kept in two levels, one per half of the key, so that every
/// level is keyed by a machine integer.
pub struct Table<V> {
    rows: HashMap<u128, HashMap<u128, V>>,
    count: usize,
    model: Ghost<Map<Key, V>>,
}

impl<V> View for Table<V> {
    type V = Map<Key, V>;

    closed spec fn view(&self) -> Map<Key, V> {
        self.model@
    }
}

impl<V> Table<V> {
    /// The two levels agree with the model, no row is empty, and the count is
    /// the number of entries.
    pub closed spec fn wf(&self) -> bool {
        &&& self.model@.dom().finite()
        &&& self.count == self.model@.len()
        &&& forall|k: Key| #[trigger]
            self.model@.contains_key(k) <==> self.rows@.contains_key(k.hi)
                && self.rows@[k.hi]@.contains_key(k.lo)
        &&& forall|k: Key| #[trigger]
            self.model@.contains_key(k) ==> self.rows@[k.hi]@[k.lo] == self.model@[k]
        &&& forall|hi: u128| #[trigger]
            self.rows@.contains_key(hi) ==> self.rows@[hi]@.len() > 0
    }

    pub fn new() -> (table: Self)
        ensures
            table.wf(),
            table@ == Map::<Key, V>::empty(),
    {
        Table { rows: HashMap::new(), count: 0, model: Ghost(Map::empty()) }
    }

    pub fn len(&self) -> (n: usize)
        requires
            self.wf(),
        ensures
            n == self@.len(),
    {
        self.count
    }

    pub fn contains_key(&self, key: &Key) -> (found: bool)
        requires
            self.wf(),
        ensures
            found == self@.contains_key(*key),
    {
        match self.rows.get(&key.hi) {
            Some(row) => row.contains_key(&key.lo),
            None => false,
        }
    }

    pub fn get(&self, key: &Key) -> (found: Option<&V>)
        requires
            self.wf(),
        ensures
            match found {
                Some(v) => self@.contains_key(*key) && *v == self@[*key],
                None => !self@.contains_key(*key),
            },
    {
        match self.rows.get(&key.hi) {
            Some(row) => row.get(&key.lo),
            None => None,
        }
    }

    /// Stores `value` under `key` and hands back what was stored there before.
    pub fn insert(&mut self, key: Key, value: V) -> (prev: Option<V>)
        requires
            old(self).wf(),
            old(self)@.len() < usize::MAX,
        ensures
            final(self).wf(),
            final(self)@ == old(self)@.insert(key, value),
            match prev {
                Some(v) => old(self)@.contains_key(key) && v == old(self)@[key],
                None => !old(self)@.contains_key(key),
            },
    {
        let mut row = match self.rows.remove(&key.hi) {
            Some(row) => row,
            None => HashMap::new(),
        };
        let prev = row.insert(key.lo, value);
        if prev.is_none() {
            self.count = self.count + 1;
        }
        self.rows.insert(key.hi, row);
        proof {
            self.model = Ghost(self.model@.insert(key, value));
        }
        prev
    }

    /// Takes out what is stored under `key`, if anything.
    pub fn remove(&mut self, key: &Key) -> (prev: Option<V>)
        requires
            old(self).wf(),
        ensures
            final(self).wf(),
            final(self)@ == old(self)@.remove(*key),
            match prev {
                Some(v) => old(self)@.contains_key(*key) && v == old(self)@[*key],
                None => !old(self)@.contains_key(*key),
            },
    {
        match self.rows.remove(&key.hi) {
            None => None,
            Some(mut row) => {
                let prev = row.remove(&key.lo);
                if prev.is_some() {
                    assert(old(self)@.dom().contains(*key));
                    self.count = self.count - 1;
                }
                if row.len() > 0 {
                    self.rows.insert(key.hi, row);
                }
                proof {
                    self.model = Ghost(self.model@.remove(*key));
                }
                prev
            },
        }
    }
}

} // verus!
