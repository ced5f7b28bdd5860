//! The dedup engine: one consumer that tests each value against a membership
//! store, counts it as unique or duplicate, and yields one log record for
//! every first-seen value.

use crate::store::HasInsert;
use crate::text::{padded_digits, push_padded};
use std::sync::atomic::{AtomicU32, AtomicU64, Ordering};
use std::sync::mpsc::SyncSender;
use std::sync::Arc;
use vstd::arithmetic::div_mod::lemma_add_mod_noop_right;
use vstd::prelude::*;

verus! {

/// The width of a log record, in characters.
pub const RECORD_WIDTH: usize = 9;

/// The log record of `value`: its decimal digits, zero-padded to nine.
pub open spec fn record_text(value: u32) -> Seq<char> {
    padded_digits(value as nat, RECORD_WIDTH as nat)
}

/// Renders the log record of `value`.
pub fn log_record(value: u32) -> (record: String)
    ensures
        record@ == record_text(value),
{
    let mut record = String::new();
    push_padded(&mut record, value as u64, RECORD_WIDTH);
    assert(record@ =~= record_text(value));
    record
}

/// `std::sync::mpsc::SyncSender`, the sending half of a bounded queue.
#[verifier::external_type_specification]
#[verifier::external_body]
#[verifier::reject_recursive_types(T)]
pub struct ExSyncSender<T>(SyncSender<T>);

/// `SyncSender::send` waits while the queue is full and then hands the item
/// over; it fails only where the receiving half is gone. The result says
/// whether the item was handed over, which rests with the other end of the
/// queue: nothing is claimed of it.
#[verifier::external_body]
pub(crate) fn enqueue<T>(queue: &SyncSender<T>, item: T) -> (delivered: bool) {
    queue.send(item).is_ok()
}

/// What became of one submitted value.
#[derive(Clone, Copy, Debug, PartialEq, Eq)]
pub enum Outcome {
    /// The value was seen before; nothing was queued.
    Duplicate,
    /// The value was first seen and its record is on the log queue.
    Logged,
    /// The value was first seen and counted, but the log queue has lost its
    /// consumer and took nothing.
    Unlogged,
}

/// What the engine knows at one moment: the values seen and the two counters.
pub ghost struct EngineState {
    pub seen: Set<u32>,
    pub unique: u32,
    pub duplicate: u64,
}

/// A 32-bit counter after `n` increments from `start`; it wraps round.
pub open spec fn advance32(start: u32, n: int) -> u32 {
    ((start + n) % 0x1_0000_0000) as u32
}

/// A 64-bit counter after `n` increments from `start`; it wraps round.
pub open spec fn advance64(start: u64, n: int) -> u64 {
    ((start + n) % 0x1_0000_0000_0000_0000) as u64
}

/// Increments add up: a counter advanced by `a` and then by `b` stands where
/// one advanced by `a + b` stands.
pub proof fn lemma_advance_twice(start32: u32, start64: u64, a: int, b: int)
    requires
        a >= 0,
        b >= 0,
    ensures
        advance32(advance32(start32, a), b) == advance32(start32, a + b),
        advance64(advance64(start64, a), b) == advance64(start64, a + b),
{
    lemma_add_mod_noop_right(b, start32 + a, 0x1_0000_0000);
    lemma_add_mod_noop_right(b, start64 + a, 0x1_0000_0000_0000_0000);
    assert(b + (start32 + a) == start32 + (a + b));
    assert(b + (start64 + a) == start64 + (a + b));
    assert(b + (start32 + a) % 0x1_0000_0000 == (start32 + a) % 0x1_0000_0000 + b);
    assert(b + (start64 + a) % 0x1_0000_0000_0000_0000 == (start64 + a)
        % 0x1_0000_0000_0000_0000 + b);
}

/// The state after one value: a new value joins the set and counts as
/// unique, a known one counts as duplicate.
pub open spec fn step(s: EngineState, value: u32) -> EngineState {
    if s.seen.contains(value) {
        EngineState { duplicate: advance64(s.duplicate, 1), ..s }
    } else {
        EngineState { seen: s.seen.insert(value), unique: advance32(s.unique, 1), ..s }
    }
}

/// The values of `values` that are first seen, in their order: those neither
/// in `seen` nor earlier in `values`.
pub open spec fn first_seen(seen: Set<u32>, values: Seq<u32>) -> Seq<u32>
    decreases values.len(),
{
    if values.len() == 0 {
        Seq::empty()
    } else {
        let earlier = values.drop_last();
        let value = values.last();
        if seen.contains(value) || earlier.contains(value) {
            first_seen(seen, earlier)
        } else {
            first_seen(seen, earlier).push(value)
        }
    }
}

/// The state after a run of values: the set has taken them all in, they count
/// as unique where first seen and as duplicate elsewhere.
pub open spec fn after(s: EngineState, values: Seq<u32>) -> EngineState {
    let fresh = first_seen(s.seen, values).len() as int;
    EngineState {
        seen: s.seen.union(values.to_set()),
        unique: advance32(s.unique, fresh),
        duplicate: advance64(s.duplicate, values.len() - fresh),
    }
}

/// The log records that a run of values yields, in order.
pub open spec fn records(seen: Set<u32>, values: Seq<u32>) -> Seq<Seq<char>> {
    first_seen(seen, values).map_values(|v: u32| record_text(v))
}

/// The texts of a list of strings.
pub open spec fn texts(lines: Seq<String>) -> Seq<Seq<char>> {
    lines.map_values(|line: String| line@)
}

/// No more values are first seen than there are values.
pub proof fn lemma_first_seen_short(seen: Set<u32>, values: Seq<u32>)
    ensures
        first_seen(seen, values).len() <= values.len(),
    decreases values.len(),
{
    if values.len() > 0 {
        lemma_first_seen_short(seen, values.drop_last());
    }
}

/// Taking in a run of values and then one more is one step from the state
/// after the run.
pub proof fn lemma_after_push(s: EngineState, values: Seq<u32>, value: u32)
    ensures
        after(s, values.push(value)) == step(after(s, values), value),
        after(s, Seq::empty()) == s,
        first_seen(s.seen, values.push(value)) == if after(s, values).seen.contains(value) {
            first_seen(s.seen, values)
        } else {
            first_seen(s.seen, values).push(value)
        },
{
    let longer = values.push(value);
    assert(longer.drop_last() =~= values);
    assert(longer.last() == value);
    assert(values.contains(value) <==> values.to_set().contains(value));
    assert(longer.to_set() =~= values.to_set().insert(value)) by {
        assert forall|v: u32| #[trigger] longer.to_set().contains(v) implies values.to_set().insert(
            value,
        ).contains(v) by {
            let i = choose|i: int| 0 <= i < longer.len() && longer[i] == v;
            if i < values.len() {
                assert(values[i] == v);
            }
        }
        assert forall|v: u32| #[trigger]
            values.to_set().insert(value).contains(v) implies longer.to_set().contains(v) by {
            if v == value {
                assert(longer[values.len() as int] == v);
            } else {
                let i = choose|i: int| 0 <= i < values.len() && values[i] == v;
                assert(longer[i] == v);
            }
        }
    }
    assert(after(s, longer).seen =~= step(after(s, values), value).seen);
    let fresh = first_seen(s.seen, values).len() as int;
    lemma_first_seen_short(s.seen, values);
    lemma_advance_twice(s.unique, s.duplicate, fresh, 1);
    lemma_advance_twice(s.unique, s.duplicate, values.len() - fresh, 1);
    assert(advance32(s.unique, 0) == s.unique);
    assert(advance64(s.duplicate, 0) == s.duplicate);
    assert(Seq::<u32>::empty().to_set() =~= Set::<u32>::empty());
    assert(s.seen.union(Set::<u32>::empty()) =~= s.seen);
    assert(after(s, Seq::empty()).seen =~= s.seen);
}

/// The single consumer of submitted values, over any membership store.
///
/// The engine keeps its own tally of unique and duplicate values, of which
/// its contracts speak, and publishes every increment to two shared counters
/// that other threads may read.
pub struct DedupEngine<B: HasInsert> {
    store: B,
    unique_tally: u32,
    duplicate_tally: u64,
    unique_counter: Arc<AtomicU32>,
    duplicate_counter: Arc<AtomicU64>,
}

impl<B: HasInsert> DedupEngine<B> {
    /// The engine's state: what its store holds, and its counters.
    pub closed spec fn view(&self) -> EngineState {
        EngineState {
            seen: self.store.members(),
            unique: self.unique_tally,
            duplicate: self.duplicate_tally,
        }
    }

    /// Whether the engine's store has room for `value`.
    pub closed spec fn admits(&self, value: u32) -> bool {
        self.store.admits(value)
    }

    /// The two shared counters that the engine publishes to: of first-seen
    /// values, and of duplicates.
    pub closed spec fn counters(&self) -> (Arc<AtomicU32>, Arc<AtomicU64>) {
        (self.unique_counter, self.duplicate_counter)
    }

    /// An engine over `store`, with its tally at zero, which publishes to the
    /// two counters given.
    pub fn new(
        store: B,
        unique_counter: Arc<AtomicU32>,
        duplicate_counter: Arc<AtomicU64>,
    ) -> (engine: Self)
        ensures
            engine@ == (EngineState { seen: store.members(), unique: 0, duplicate: 0 }),
            engine.counters() == (unique_counter, duplicate_counter),
            forall|v: u32| engine.admits(v) == store.admits(v),
    {
        DedupEngine {
            store,
            unique_tally: 0,
            duplicate_tally: 0,
            unique_counter,
            duplicate_counter,
        }
    }

    /// How many values were first seen.
    pub fn unique_count(&self) -> (count: u32)
        ensures
            count == self@.unique,
    {
        self.unique_tally
    }

    /// How many values were seen before.
    pub fn duplicate_count(&self) -> (count: u64)
        ensures
            count == self@.duplicate,
    {
        self.duplicate_tally
    }

    /// Takes in one value. A first-seen value yields its log record, a
    /// duplicate yields nothing.
    pub fn process(&mut self, value: u32) -> (record: Option<String>)
        requires
            old(self).admits(value),
        ensures
            final(self)@ == step(old(self)@, value),
            old(self)@.seen.contains(value) ==> record is None,
            !old(self)@.seen.contains(value) ==> record is Some && record->0@ == record_text(
                value,
            ),
            forall|v: u32| final(self).admits(v) == old(self).admits(v),
            final(self).counters() == old(self).counters(),
    {
        if self.store.insert(value) {
            self.unique_tally = self.unique_tally.wrapping_add(1);
            self.unique_counter.fetch_add(1, Ordering::SeqCst);
            Some(log_record(value))
        } else {
            self.duplicate_tally = self.duplicate_tally.wrapping_add(1);
            self.duplicate_counter.fetch_add(1, Ordering::SeqCst);
            assert(self.store.members() =~= old(self).store.members());
            None
        }
    }

    /// Takes in one value and, where it is first seen, puts its record on
    /// the log queue, waiting while the queue is full. The engine counts the
    /// value whatever becomes of the record: a queue that has lost its
    /// consumer stops nothing but the log.
    pub fn forward(&mut self, value: u32, queue: &SyncSender<String>) -> (outcome: Outcome)
        requires
            old(self).admits(value),
        ensures
            final(self)@ == step(old(self)@, value),
            outcome is Duplicate <==> old(self)@.seen.contains(value),
            forall|v: u32| final(self).admits(v) == old(self).admits(v),
            final(self).counters() == old(self).counters(),
    {
        match self.process(value) {
            Some(record) => {
                if enqueue(queue, record) {
                    Outcome::Logged
                } else {
                    Outcome::Unlogged
                }
            },
            None => Outcome::Duplicate,
        }
    }

    /// Takes in a run of values in order and returns the log records of the
    /// first-seen ones, in that order.
    pub fn process_all(&mut self, values: &[u32]) -> (out: Vec<String>)
        requires
            forall|i: int| 0 <= i < values@.len() ==> old(self).admits(#[trigger] values@[i]),
        ensures
            final(self)@ == after(old(self)@, values@),
            texts(out@) == records(old(self)@.seen, values@),
            forall|v: u32| final(self).admits(v) == old(self).admits(v),
            final(self).counters() == old(self).counters(),
    {
        let mut out: Vec<String> = Vec::new();
        let mut i: usize = 0;
        proof {
            lemma_after_push(old(self)@, Seq::empty(), 0);
            assert(values@.take(0) =~= Seq::empty());
            assert(texts(out@) =~= records(old(self)@.seen, values@.take(0)));
        }
        while i < values.len()
            invariant
                i <= values@.len(),
                self@ == after(old(self)@, values@.take(i as int)),
                texts(out@) == records(old(self)@.seen, values@.take(i as int)),
                forall|v: u32| self.admits(v) == old(self).admits(v),
                self.counters() == old(self).counters(),
                forall|j: int| 0 <= j < values@.len() ==> old(self).admits(#[trigger] values@[j]),
            decreases values@.len() - i,
        {
            let value: u32 = values[i];
            let ghost before = out@;
            proof {
                lemma_after_push(old(self)@, values@.take(i as int), value);
                assert(values@.take(i + 1) =~= values@.take(i as int).push(value));
            }
            match self.process(value) {
                Some(record) => {
                    out.push(record);
                    assert(texts(out@) =~= texts(before).push(record_text(value)));
                    assert(records(old(self)@.seen, values@.take(i + 1)) =~= records(
                        old(self)@.seen,
                        values@.take(i as int),
                    ).push(record_text(value)));
                },
                None => {},
            }
            i += 1;
        }
        assert(values@.take(i as int) =~= values@);
        out
    }
}

} // verus!
