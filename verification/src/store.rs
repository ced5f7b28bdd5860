//! Membership stores: three interchangeable ways to answer "is this value new?".

use crate::engine::{DedupEngine, EngineState};
use std::collections::{BTreeSet, HashSet};
use std::sync::atomic::{AtomicU32, AtomicU64};
use std::sync::Arc;
use vstd::prelude::*;
use vstd::std_specs::btree::*;
use vstd::std_specs::hash::*;

verus! {

broadcast use {group_hash_axioms, group_btree_axioms};

/// The bound of the value domain: every value is below it.
pub const MAX_NUMBER: usize = 1000000000;

/// A set of values that can only grow.
pub trait HasInsert {
    /// The values recorded so far.
    spec fn members(&self) -> Set<u32>;

    /// Whether the store has room for `value`.
    spec fn admits(&self, value: u32) -> bool;

    /// Records `value` and says whether it was new.
    fn insert(&mut self, value: u32) -> (fresh: bool)
        requires
            old(self).admits(value),
        ensures
            fresh == !old(self).members().contains(value),
            final(self).members() == old(self).members().insert(value),
            forall|v: u32| final(self).admits(v) == old(self).admits(v),
    ;
}

impl HasInsert for HashSet<u32> {
    open spec fn members(&self) -> Set<u32> {
        self@
    }

    open spec fn admits(&self, value: u32) -> bool {
        true
    }

    fn insert(&mut self, value: u32) -> (fresh: bool) {
        HashSet::insert(self, value)
    }
}

impl HasInsert for BTreeSet<u32> {
    open spec fn members(&self) -> Set<u32> {
        self@
    }

    open spec fn admits(&self, value: u32) -> bool {
        true
    }

    fn insert(&mut self, value: u32) -> (fresh: bool) {
        BTreeSet::insert(self, value)
    }
}

/// The values whose flag is set in a table of flags indexed by value.
pub open spec fn flagged(flags: Seq<bool>) -> Set<u32> {
    Set::new(|v: u32| (v as int) < flags.len() && flags[v as int])
}

impl HasInsert for Vec<bool> {
    open spec fn members(&self) -> Set<u32> {
        flagged(self@)
    }

    open spec fn admits(&self, value: u32) -> bool {
        (value as int) < self@.len()
    }

    fn insert(&mut self, value: u32) -> (fresh: bool) {
        let index: usize = value as usize;
        if self[index] {
            assert(flagged(self@).insert(value) =~= flagged(self@));
            return false;
        }
        let ghost before = self@;
        self.set(index, true);
        assert(flagged(self@) =~= flagged(before).insert(value));
        true
    }
}

/// `Arc::clone` hands out one more handle to the same shared value.
#[verifier::external_body]
pub(crate) fn share<T>(handle: &Arc<T>) -> (other: Arc<T>)
    ensures
        other == *handle,
{
    Arc::clone(handle)
}

/// `vec![false; n]`, std's `Vec` of `n` copies of one element: a table of
/// `n` flags, none of them set. A size beyond what an allocation may span is
/// left out, since std panics on it.
#[verifier::external_body]
fn cleared_flags(n: usize) -> (flags: Vec<bool>)
    requires
        n <= isize::MAX,
    ensures
        flags@ == Seq::new(n as nat, |i: int| false),
{
    vec![false; n]
}

/// A maker of dedup engines over one kind of membership store, and the
/// holder of the two counters that the engine publishes to.
pub trait Store<B: HasInsert> {
    /// The maker's two shared counters: of first-seen values, and of
    /// duplicates.
    spec fn counters(&self) -> (Arc<AtomicU32>, Arc<AtomicU64>);

    /// A handle to the shared counter of duplicates.
    fn duplicate_counter(&self) -> (counter: Arc<AtomicU64>)
        ensures
            counter == self.counters().1,
    ;

    /// A handle to the shared counter of first-seen values.
    fn unique_counter(&self) -> (counter: Arc<AtomicU32>)
        ensures
            counter == self.counters().0,
    ;

    /// A fresh membership store: it holds nothing and has room for every
    /// value of the domain.
    fn get_store(&self) -> (store: B)
        ensures
            store.members() == Set::<u32>::empty(),
            forall|v: u32| v < MAX_NUMBER ==> store.admits(v),
    ;

    /// A dedup engine over a fresh membership store, which publishes to this
    /// maker's counters.
    fn start_processing(&self) -> (engine: DedupEngine<B>)
        ensures
            engine@ == (EngineState { seen: Set::empty(), unique: 0, duplicate: 0 }),
            engine.counters() == self.counters(),
            forall|v: u32| v < MAX_NUMBER ==> engine.admits(v),
    {
        DedupEngine::new(self.get_store(), self.unique_counter(), self.duplicate_counter())
    }
}

/// Makes engines over a hash set.
pub struct HashSetStore {
    unique_counter: Arc<AtomicU32>,
    duplicate_counter: Arc<AtomicU64>,
}

impl HashSetStore {
    /// A maker of engines over a hash set. Its two counters start at zero; std's atomics are opaque to contracts.
    pub fn new() -> Box<HashSetStore> {
        let unique_counter = Arc::new(AtomicU32::new(0));
        let duplicate_counter = Arc::new(AtomicU64::new(0));
        Box::new(HashSetStore { unique_counter, duplicate_counter })
    }
}

/// Makes engines over an ordered tree set.
pub struct BTreeSetStore {
    unique_counter: Arc<AtomicU32>,
    duplicate_counter: Arc<AtomicU64>,
}

impl BTreeSetStore {
    /// A maker of engines over an ordered tree set. Its two counters start at zero; std's atomics are opaque to contracts.
    pub fn new() -> Box<BTreeSetStore> {
        let unique_counter = Arc::new(AtomicU32::new(0));
        let duplicate_counter = Arc::new(AtomicU64::new(0));
        Box::new(BTreeSetStore { unique_counter, duplicate_counter })
    }
}

/// Makes engines over a table of one flag per value of the domain.
pub struct VecStore {
    unique_counter: Arc<AtomicU32>,
    duplicate_counter: Arc<AtomicU64>,
}

impl VecStore {
    /// A maker of engines over a table of flags. Its two counters start at zero; std's atomics are opaque to contracts.
    pub fn new() -> Box<VecStore> {
        let unique_counter = Arc::new(AtomicU32::new(0));
        let duplicate_counter = Arc::new(AtomicU64::new(0));
        Box::new(VecStore { unique_counter, duplicate_counter })
    }
}

impl Store<HashSet<u32>> for HashSetStore {
    closed spec fn counters(&self) -> (Arc<AtomicU32>, Arc<AtomicU64>) {
        (self.unique_counter, self.duplicate_counter)
    }

    fn duplicate_counter(&self) -> (counter: Arc<AtomicU64>) {
        share(&self.duplicate_counter)
    }

    fn unique_counter(&self) -> (counter: Arc<AtomicU32>) {
        share(&self.unique_counter)
    }

    fn get_store(&self) -> (store: HashSet<u32>) {
        HashSet::new()
    }
}

impl Store<BTreeSet<u32>> for BTreeSetStore {
    closed spec fn counters(&self) -> (Arc<AtomicU32>, Arc<AtomicU64>) {
        (self.unique_counter, self.duplicate_counter)
    }

    fn duplicate_counter(&self) -> (counter: Arc<AtomicU64>) {
        share(&self.duplicate_counter)
    }

    fn unique_counter(&self) -> (counter: Arc<AtomicU32>) {
        share(&self.unique_counter)
    }

    fn get_store(&self) -> (store: BTreeSet<u32>) {
        BTreeSet::new()
    }
}

impl Store<Vec<bool>> for VecStore {
    closed spec fn counters(&self) -> (Arc<AtomicU32>, Arc<AtomicU64>) {
        (self.unique_counter, self.duplicate_counter)
    }

    fn duplicate_counter(&self) -> (counter: Arc<AtomicU64>) {
        share(&self.duplicate_counter)
    }

    fn unique_counter(&self) -> (counter: Arc<AtomicU32>) {
        share(&self.unique_counter)
    }

    fn get_store(&self) -> (store: Vec<bool>) {
        let flags = cleared_flags(MAX_NUMBER);
        assert(flagged(flags@) =~= Set::<u32>::empty());
        flags
    }
}

} // verus!
