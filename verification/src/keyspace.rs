//! The table from keys to values: a hash index over a vector of slots, so that
//! a value can be taken out and put back without copying it.

use vstd::prelude::*;
use vstd::string::*;
use vstd::hash_map::StringHashMap;
use crate::db::{DbValue, ValueView};

verus! {

/// A key with the value stored under it.
#[derive(Debug)]
struct Slot {
    key: String,
    value: DbValue,
}

/// The values of the engine by key.
pub struct Keyspace {
    index: StringHashMap<usize>,
    slots: Vec<Slot>,
}

impl View for Keyspace {
    type V = Map<Seq<char>, ValueView>;

    closed spec fn view(&self) -> Map<Seq<char>, ValueView> {
        Map::new(
            |key: Seq<char>| self.index@.contains_key(key),
            |key: Seq<char>| self.slots[self.index@[key] as int].value@,
        )
    }
}

impl Keyspace {
    /// The index and the slots agree: each indexed key names the slot that
    /// holds it, and each slot is indexed under its key.
    pub closed spec fn wf(&self) -> bool {
        &&& forall|key: Seq<char>| #[trigger]
            self.index@.contains_key(key) ==> self.index@[key] < self.slots.len()
                && self.slots[self.index@[key] as int].key@ == key
        &&& forall|i: int|
            0 <= i < self.slots.len() ==> self.index@.contains_key((#[trigger] self.slots[i]).key@)
                && self.index@[self.slots[i].key@] == i
    }

    /// A table without keys.
    pub fn new() -> (table: Keyspace)
        ensures
            table.wf(),
            table@ == Map::<Seq<char>, ValueView>::empty(),
    {
        let table = Keyspace { index: StringHashMap::new(), slots: Vec::new() };
        table
    }

    /// The value stored under `key`.
    pub fn get(&self, key: &str) -> (found: Option<&DbValue>)
        requires
            self.wf(),
        ensures
            match found {
                Some(value) => self@.contains_key(key@) && value@ == self@[key@],
                None => !self@.contains_key(key@),
            },
    {
        match self.index.get(key) {
            Some(at) => Some(&self.slots[*at].value),
            None => None,
        }
    }

    /// Stores `value` under `key` and hands back what was stored there.
    pub fn insert(&mut self, key: &str, value: DbValue) -> (previous: Option<DbValue>)
        requires
            old(self).wf(),
        ensures
            final(self).wf(),
            final(self)@ == old(self)@.insert(key@, value@),
            match previous {
                Some(was) => old(self)@.contains_key(key@) && was@ == old(self)@[key@],
                None => !old(self)@.contains_key(key@),
            },
    {
        let ghost before = *self;
        let at = match self.index.get(key) {
            Some(at) => Some(*at),
            None => None,
        };
        match at {
            Some(at) => {
                self.slots.push(Slot { key: key.to_owned(), value });
                let was = self.slots.swap_remove(at);
                assert(self@ =~= before@.insert(key@, value@));
                Some(was.value)
            },
            None => {
                let n = self.slots.len();
                self.slots.push(Slot { key: key.to_owned(), value });
                self.index.insert(key.to_owned(), n);
                assert(self@ =~= before@.insert(key@, value@));
                None
            },
        }
    }

    /// Removes `key` and hands back what was stored under it.
    pub fn remove(&mut self, key: &str) -> (previous: Option<DbValue>)
        requires
            old(self).wf(),
        ensures
            final(self).wf(),
            final(self)@ == old(self)@.remove(key@),
            match previous {
                Some(was) => old(self)@.contains_key(key@) && was@ == old(self)@[key@],
                None => !old(self)@.contains_key(key@),
            },
    {
        let ghost before = *self;
        let at = match self.index.get(key) {
            Some(at) => *at,
            None => {
                return None;
            },
        };
        let was = self.slots.swap_remove(at);
        let n = self.slots.len();
        if at < n {
            let moved = self.slots[at].key.clone();
            self.index.insert(moved, at);
        }
        self.index.remove(key);
        assert(self@ =~= before@.remove(key@));
        Some(was.value)
    }
}

} // verus!
