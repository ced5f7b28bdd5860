//! The listener's settings and the rule of a connection worker.

use crate::engine::enqueue;
use crate::store::MAX_NUMBER;
use crate::text::{decimal_digits, parse_value, parsed_value, push_decimal, read_values, submitted};
use std::sync::mpsc::SyncSender;
use vstd::prelude::*;

verus! {

/// Where the server listens.
pub struct Server {
    port: u16,
    host: String,
}

/// What a connection worker did with one line.
#[derive(Clone, Copy, Debug, PartialEq, Eq)]
pub enum Forwarded {
    /// The line was this value and it is on the engine's queue: read on.
    Queued(u32),
    /// The line was this value, but the queue has lost its consumer: stop.
    Undelivered(u32),
    /// The line was no value of the domain, or the stream was at its end:
    /// stop.
    Stopped,
}

/// The address `host:port`.
pub open spec fn address_text(host: Seq<char>, port: u16) -> Seq<char> {
    host.push(':') + decimal_digits(port as nat)
}

impl Server {
    /// The host to bind.
    pub closed spec fn host(&self) -> Seq<char> {
        self.host@
    }

    /// The port to bind.
    pub closed spec fn port(&self) -> u16 {
        self.port
    }

    /// A server for `host` and `port`.
    pub fn new(host: String, port: u16) -> (server: Server)
        ensures
            server.host() == host@,
            server.port() == port,
    {
        Server { host, port }
    }

    /// The address to bind, as `host:port`.
    pub fn address(&self) -> (addr: String)
        ensures
            addr@ == address_text(self.host(), self.port()),
    {
        let mut addr = String::new();
        addr.push_str(self.host.as_str());
        addr.push(':');
        push_decimal(&mut addr, self.port as u64);
        assert(addr@ =~= address_text(self.host(), self.port()));
        addr
    }

    /// What a connection worker does with one line that it read: a value of
    /// the domain is forwarded, anything else ends the connection. The end of
    /// the stream reads as an empty line, which is no value.
    pub fn accept_line(&self, line: &[u8]) -> (forward: Option<u32>)
        ensures
            forward == parsed_value(line@, MAX_NUMBER as u32),
    {
        parse_value(line, MAX_NUMBER as u32)
    }

    /// One turn of a connection worker: a line that is a value of the domain
    /// goes on the engine's queue, with a wait while the queue is full. The
    /// worker reads on after a value that was queued, and after nothing else.
    pub fn forward_line(&self, line: &[u8], queue: &SyncSender<u32>) -> (outcome: Forwarded)
        ensures
            match outcome {
                Forwarded::Queued(value) | Forwarded::Undelivered(value) => parsed_value(
                    line@,
                    MAX_NUMBER as u32,
                ) == Some(value),
                Forwarded::Stopped => parsed_value(line@, MAX_NUMBER as u32) is None,
            },
    {
        match self.accept_line(line) {
            Some(value) => {
                if enqueue(queue, value) {
                    Forwarded::Queued(value)
                } else {
                    Forwarded::Undelivered(value)
                }
            },
            None => Forwarded::Stopped,
        }
    }

    /// The values that a connection worker forwards from a stream that
    /// carried `input`.
    pub fn accept_stream(&self, input: &[u8]) -> (values: Vec<u32>)
        ensures
            values@ == submitted(input@, MAX_NUMBER as u32),
    {
        read_values(input, MAX_NUMBER as u32)
    }
}

} // verus!
