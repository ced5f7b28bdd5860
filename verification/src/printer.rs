//! The stats reporter: what it prints at each tick of its timer.

use crate::text::{decimal_digits, push_decimal};
use std::sync::atomic::{AtomicU32, AtomicU64, Ordering};
use std::sync::Arc;
use std::time::Duration;
use vstd::prelude::*;

verus! {

/// By how much a 32-bit counter that wraps round went up from `last` to `now`.
pub open spec fn delta32(last: u32, now: u32) -> nat {
    if now >= last {
        (now - last) as nat
    } else {
        (now + 0x1_0000_0000 - last) as nat
    }
}

/// By how much a 64-bit counter that wraps round went up from `last` to `now`.
pub open spec fn delta64(last: u64, now: u64) -> nat {
    if now >= last {
        (now - last) as nat
    } else {
        (now + 0x1_0000_0000_0000_0000 - last) as nat
    }
}

/// The report line for the given deltas and running total.
pub open spec fn report_line(delta_unique: nat, delta_duplicate: nat, unique_total: nat) -> Seq<
    char,
> {
    "Received "@ + decimal_digits(delta_unique) + " unique numbers, "@ + decimal_digits(
        delta_duplicate,
    ) + " duplicates. Unique total: "@ + decimal_digits(unique_total)
}

/// The report on a sample of the counters, given the sample before it: how
/// far each counter went, and the unique total.
pub open spec fn sample_report(
    last_unique: u32,
    last_duplicate: u64,
    unique_count: u32,
    duplicate_count: u64,
) -> Seq<char> {
    report_line(
        delta32(last_unique, unique_count),
        delta64(last_duplicate, duplicate_count),
        unique_count as nat,
    )
}

/// Reports, at each tick, how far the two shared counters went since the
/// tick before.
pub struct Printer {
    interval: Duration,
    unique_counter: Arc<AtomicU32>,
    duplicate_counter: Arc<AtomicU64>,
    last_unique_count: u32,
    last_duplicate_count: u64,
}

impl Printer {
    /// The unique count at the last tick; zero before the first.
    pub closed spec fn last_unique(&self) -> u32 {
        self.last_unique_count
    }

    /// The duplicate count at the last tick; zero before the first.
    pub closed spec fn last_duplicate(&self) -> u64 {
        self.last_duplicate_count
    }

    /// The time between two ticks.
    pub closed spec fn every(&self) -> Duration {
        self.interval
    }

    /// The two shared counters that the reporter samples: of first-seen
    /// values, and of duplicates.
    pub closed spec fn counters(&self) -> (Arc<AtomicU32>, Arc<AtomicU64>) {
        (self.unique_counter, self.duplicate_counter)
    }

    /// A reporter on the two counters that has not ticked yet.
    pub fn new(
        interval: Duration,
        unique_counter: Arc<AtomicU32>,
        duplicate_counter: Arc<AtomicU64>,
    ) -> (printer: Printer)
        ensures
            printer.every() == interval,
            printer.counters() == (unique_counter, duplicate_counter),
            printer.last_unique() == 0,
            printer.last_duplicate() == 0,
    {
        Printer {
            interval,
            unique_counter,
            duplicate_counter,
            last_unique_count: 0,
            last_duplicate_count: 0,
        }
    }

    /// The time between two ticks.
    pub fn interval(&self) -> (interval: &Duration)
        ensures
            *interval == self.every(),
    {
        &self.interval
    }

    /// The report for one sample of the counters: how far each went since
    /// the sample before, and the unique total. The sample becomes the one
    /// that the next report starts from.
    pub fn report(&mut self, unique_count: u32, duplicate_count: u64) -> (line: String)
        ensures
            line@ == sample_report(
                old(self).last_unique(),
                old(self).last_duplicate(),
                unique_count,
                duplicate_count,
            ),
            final(self).last_unique() == unique_count,
            final(self).last_duplicate() == duplicate_count,
            final(self).every() == old(self).every(),
            final(self).counters() == old(self).counters(),
    {
        let delta_unique: u32 = unique_count.wrapping_sub(self.last_unique_count);
        let delta_duplicate: u64 = duplicate_count.wrapping_sub(self.last_duplicate_count);
        let mut line = String::new();
        line.push_str("Received ");
        push_decimal(&mut line, delta_unique as u64);
        line.push_str(" unique numbers, ");
        push_decimal(&mut line, delta_duplicate);
        line.push_str(" duplicates. Unique total: ");
        push_decimal(&mut line, unique_count as u64);
        self.last_unique_count = unique_count;
        self.last_duplicate_count = duplicate_count;
        assert(line@ =~= sample_report(
            old(self).last_unique(),
            old(self).last_duplicate(),
            unique_count,
            duplicate_count,
        ));
        line
    }

    /// One tick: samples the two shared counters and reports on the sample,
    /// whatever other threads have made of the counters by then.
    pub fn tick(&mut self) -> (line: String)
        ensures
            line@ == sample_report(
                old(self).last_unique(),
                old(self).last_duplicate(),
                final(self).last_unique(),
                final(self).last_duplicate(),
            ),
            final(self).every() == old(self).every(),
            final(self).counters() == old(self).counters(),
    {
        let unique_count: u32 = self.unique_counter.load(Ordering::SeqCst);
        let duplicate_count: u64 = self.duplicate_counter.load(Ordering::SeqCst);
        self.report(unique_count, duplicate_count)
    }
}

/// Stats delta: where the counters went up by `u` uniques and `d` duplicates
/// between two samples, wrapping round or not, the deltas of the second
/// sample over the first are exactly `u` and `d`.
pub proof fn law_stats_delta(last_unique: u32, last_duplicate: u64, u: nat, d: nat)
    requires
        u < 0x1_0000_0000,
        d < 0x1_0000_0000_0000_0000,
    ensures
        delta32(last_unique, ((last_unique + u) % 0x1_0000_0000) as u32) == u,
        delta64(last_duplicate, ((last_duplicate + d) % 0x1_0000_0000_0000_0000) as u64) == d,
{
}

} // verus!
