//! A store that may decline to save.

use std::collections::HashSet;
use vstd::prelude::*;
use vstd::std_specs::hash::*;

verus! {

broadcast use group_hash_axioms;

/// A set of values that can only grow, and that may decline a value.
pub trait Store {
    /// The values saved so far.
    spec fn members(&self) -> Set<u32>;

    /// Whether the store saves every value it is given, now and later.
    spec fn reliable(&self) -> bool;

    /// Saves `val` and says whether it was new, or declines and stays as it
    /// was.
    fn save(&mut self, val: u32) -> (res: Option<bool>)
        ensures
            old(self).reliable() ==> res is Some && final(self).reliable(),
            res is Some ==> res == Some(!old(self).members().contains(val)),
            res is Some ==> final(self).members() == old(self).members().insert(val),
            res is None ==> final(self).members() == old(self).members(),
    ;
}

/// A store in memory, over a hash set. It never declines.
pub struct InMemoryStore {
    store: HashSet<u32>,
}

impl InMemoryStore {
    /// An empty store.
    pub fn new() -> (store: InMemoryStore)
        ensures
            store.members() == Set::<u32>::empty(),
            store.reliable(),
    {
        InMemoryStore { store: HashSet::new() }
    }

    /// Whether `val` was saved.
    pub fn contains(&self, val: u32) -> (found: bool)
        ensures
            found == self.members().contains(val),
    {
        self.store.contains(&val)
    }
}

impl Store for InMemoryStore {
    closed spec fn members(&self) -> Set<u32> {
        self.store@
    }

    open spec fn reliable(&self) -> bool {
        true
    }

    fn save(&mut self, val: u32) -> (res: Option<bool>) {
        Some(self.store.insert(val))
    }
}

} // verus!
