//! Handlers of one connection: what becomes of the bytes it carried.

use crate::engine::{after, lemma_after_push, EngineState};
use crate::single::store::Store;
use crate::store::MAX_NUMBER;
use crate::text::{next_line_end, parse_value, submitted};
use vstd::prelude::*;
use vstd::slice::slice_subrange;

verus! {

/// What a server hands each connection to.
pub trait Handler {
    /// The counts of unique and duplicate values, in that order.
    spec fn stats(&self) -> (u32, u64);

    /// Whether `next` is a state in which handling `input` may leave a
    /// handler that was in this state.
    spec fn handles(&self, input: Seq<u8>, next: &Self) -> bool;

    /// Handles one connection that carried `input`, to its end.
    fn handle_client(&mut self, input: &[u8])
        ensures
            old(self).handles(input@, final(self)),
    ;

    /// The counts of unique and duplicate values, in that order.
    fn get_stats(&self) -> (stats: (u32, u64))
        ensures
            stats == self.stats(),
    ;
}

/// A handler that ignores its input and has counted nothing. Its counts read
/// as the greatest numbers there are.
pub struct NoopHandler {}

impl NoopHandler {
    /// A handler that does nothing.
    pub fn new() -> NoopHandler {
        NoopHandler {  }
    }
}

impl Handler for NoopHandler {
    open spec fn stats(&self) -> (u32, u64) {
        (u32::MAX, u64::MAX)
    }

    open spec fn handles(&self, input: Seq<u8>, next: &Self) -> bool {
        true
    }

    fn handle_client(&mut self, input: &[u8]) {
    }

    fn get_stats(&self) -> (stats: (u32, u64)) {
        (u32::MAX, u64::MAX)
    }
}

/// A handler that saves every value of the connection to a store and counts
/// it as unique or duplicate.
pub struct StoreHandler<S: Store> {
    store: S,
    unique_counter: u32,
    duplicate_counter: u64,
}

impl<S: Store> StoreHandler<S> {
    /// The handler's state: what its store holds, and its counters.
    pub closed spec fn view(&self) -> EngineState {
        EngineState {
            seen: self.store.members(),
            unique: self.unique_counter,
            duplicate: self.duplicate_counter,
        }
    }

    /// Whether the handler's store saves every value.
    pub closed spec fn reliable(&self) -> bool {
        self.store.reliable()
    }

    /// A handler over `store`, with both counters at zero.
    pub fn new(store: S) -> (handler: Self)
        ensures
            handler@ == (EngineState { seen: store.members(), unique: 0, duplicate: 0 }),
            handler.reliable() == store.reliable(),
    {
        StoreHandler { store, unique_counter: 0, duplicate_counter: 0 }
    }

    /// The store that the handler saves to.
    pub fn store(&self) -> (store: &S)
        ensures
            store.members() == self@.seen,
    {
        &self.store
    }
}

impl<S: Store> Handler for StoreHandler<S> {
    open spec fn stats(&self) -> (u32, u64) {
        (self@.unique, self@.duplicate)
    }

    /// The handler has taken in the values that the stream submits, in
    /// order: all of them where its store saves every value, and otherwise
    /// those before the first that the store declined.
    open spec fn handles(&self, input: Seq<u8>, next: &Self) -> bool {
        let values = submitted(input, MAX_NUMBER as u32);
        &&& exists|k: int| 0 <= k <= values.len() && next@ == #[trigger] after(self@, values.take(k))
        &&& self.reliable() ==> next.reliable() && next@ == after(self@, values)
    }

    fn handle_client(&mut self, input: &[u8]) {
        let len: usize = input.len();
        let mut pos: usize = 0;
        let ghost values = submitted(input@, MAX_NUMBER as u32);
        let ghost mut done: Seq<u32> = Seq::empty();
        proof {
            lemma_after_push(old(self)@, Seq::empty(), 0);
            assert(input@.skip(0) =~= input@);
            assert(done + values =~= values);
        }
        while pos < len
            invariant
                pos <= len,
                len == input@.len(),
                values == submitted(input@, MAX_NUMBER as u32),
                values == done + submitted(input@.skip(pos as int), MAX_NUMBER as u32),
                self@ == after(old(self)@, done),
                old(self).reliable() ==> self.reliable(),
            decreases len - pos,
        {
            let end: usize = next_line_end(input, pos);
            let line: &[u8] = slice_subrange(input, pos, end);
            proof {
                let rest = input@.skip(pos as int);
                assert(rest.take(end - pos) =~= line@);
                assert(rest.skip(end - pos) =~= input@.skip(end as int));
            }
            let parsed: Option<u32> = parse_value(line, MAX_NUMBER as u32);
            if parsed.is_none() {
                proof {
                    assert(done + Seq::<u32>::empty() =~= done);
                    assert(values.take(values.len() as int) =~= values);
                }
                return ;
            }
            let value: u32 = parsed.unwrap();
            proof {
                let tail = submitted(input@.skip(end as int), MAX_NUMBER as u32);
                assert(done + (seq![value] + tail) =~= done.push(value) + tail);
                lemma_after_push(old(self)@, done, value);
            }
            match self.store.save(value) {
                Some(fresh) => {
                    if fresh {
                        self.unique_counter = self.unique_counter.wrapping_add(1);
                    } else {
                        self.duplicate_counter = self.duplicate_counter.wrapping_add(1);
                        assert(self.store.members() =~= after(old(self)@, done).seen);
                    }
                },
                None => {
                    proof {
                        assert(values.take(done.len() as int) =~= done);
                    }
                    return ;
                },
            }
            proof {
                done = done.push(value);
            }
            pos = end;
        }
        proof {
            assert(done + Seq::<u32>::empty() =~= done);
            assert(values.take(values.len() as int) =~= values);
        }
    }

    fn get_stats(&self) -> (stats: (u32, u64)) {
        (self.unique_counter, self.duplicate_counter)
    }
}

} // verus!
