//! The log sink: what it writes for each record, and when it stops.

use vstd::prelude::*;

verus! {

/// The text of one log line: the record and a line feed.
pub open spec fn line_text(record: Seq<char>) -> Seq<char> {
    record.push('\n')
}

/// What the log holds after the given records: one line each, in order.
pub open spec fn log_text(records: Seq<Seq<char>>) -> Seq<char>
    decreases records.len(),
{
    if records.len() == 0 {
        Seq::empty()
    } else {
        log_text(records.drop_last()) + line_text(records.last())
    }
}

/// What reaches the log sink.
pub enum SinkEvent {
    /// A record came off the queue.
    Record(String),
    /// The producers are gone.
    Closed,
    /// The last write failed.
    WriteFailed,
}

/// The single writer of the log file.
pub struct Writer {
    file_path: String,
    running: bool,
}

impl Writer {
    /// The path of the log file.
    pub closed spec fn path(&self) -> Seq<char> {
        self.file_path@
    }

    /// Whether the sink still consumes records.
    pub closed spec fn is_running(&self) -> bool {
        self.running
    }

    /// A running sink for the file at `file_path`.
    pub fn new(file_path: String) -> (writer: Writer)
        ensures
            writer.path() == file_path@,
            writer.is_running(),
    {
        Writer { file_path, running: true }
    }

    /// The path of the log file.
    pub fn file_path(&self) -> (path: &str)
        ensures
            path@ == self.path(),
    {
        self.file_path.as_str()
    }

    /// Whether the sink still consumes records.
    pub fn running(&self) -> (running: bool)
        ensures
            running == self.is_running(),
    {
        self.running
    }

    /// Takes one event and returns what to append to the file, if anything.
    /// A running sink writes each record as one line. Once the producers are
    /// gone or a write has failed the sink stops for good, without a retry,
    /// and records that still come are dropped.
    pub fn handle(&mut self, event: SinkEvent) -> (output: Option<String>)
        ensures
            final(self).path() == old(self).path(),
            match event {
                SinkEvent::Record(record) => {
                    &&& final(self).is_running() == old(self).is_running()
                    &&& old(self).is_running() ==> output is Some && output->0@ == line_text(
                        record@,
                    )
                    &&& !old(self).is_running() ==> output is None
                },
                SinkEvent::Closed | SinkEvent::WriteFailed => {
                    &&& !final(self).is_running()
                    &&& output is None
                },
            },
    {
        match event {
            SinkEvent::Record(record) => {
                if self.running {
                    let mut line = record;
                    line.push('\n');
                    Some(line)
                } else {
                    None
                }
            },
            SinkEvent::Closed => {
                self.running = false;
                None
            },
            SinkEvent::WriteFailed => {
                self.running = false;
                None
            },
        }
    }

    /// Stopping is not modelled: the sink ends with the process.
    pub fn stop(&self) {
    }
}

/// The contents of a log that was written from the given records.
pub fn log_contents(records: &Vec<String>) -> (log: String)
    ensures
        log@ == log_text(crate::engine::texts(records@)),
{
    let mut log = String::new();
    let mut i: usize = 0;
    assert(crate::engine::texts(records@).take(0) =~= Seq::empty());
    while i < records.len()
        invariant
            i <= records@.len(),
            log@ == log_text(crate::engine::texts(records@).take(i as int)),
        decreases records@.len() - i,
    {
        proof {
            let all = crate::engine::texts(records@);
            assert(all.take(i + 1).drop_last() =~= all.take(i as int));
            assert(all.take(i + 1).last() == records@[i as int]@);
        }
        log.push_str(records[i].as_str());
        log.push('\n');
        proof {
            let all = crate::engine::texts(records@);
            assert(log@ =~= log_text(all.take(i as int)) + line_text(records@[i as int]@));
        }
        i += 1;
    }
    assert(crate::engine::texts(records@).take(i as int) =~= crate::engine::texts(records@));
    log
}

} // verus!
