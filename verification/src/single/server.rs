//! A server that hands each connection, one after the other, to its handler.

use crate::server::address_text;
use crate::single::handler::Handler;
use crate::text::push_decimal;
use vstd::prelude::*;

verus! {

/// Where the server listens, and the handler of its connections.
pub struct Server<T: Handler> {
    handler: T,
    host: String,
    port: u16,
}

impl<T: Handler> Server<T> {
    /// The host to bind.
    pub closed spec fn host(&self) -> Seq<char> {
        self.host@
    }

    /// The port to bind.
    pub closed spec fn port(&self) -> u16 {
        self.port
    }

    /// The handler, as it stands.
    pub closed spec fn handler_state(&self) -> T {
        self.handler
    }

    /// A server for `host` and `port` that hands its connections to `handler`.
    pub fn new(host: String, port: u16, handler: T) -> (server: Server<T>)
        ensures
            server.host() == host@,
            server.port() == port,
            server.handler_state() == handler,
    {
        Server { host, port, handler }
    }

    /// The address to bind, as `host:port`.
    pub fn address(&self) -> (addr: String)
        ensures
            addr@ == address_text(self.host(), self.port()),
    {
        let mut addr = String::new();
        addr.push_str(self.host.as_str());
        addr.push(':');
        push_decimal(&mut addr, self.port as u64);
        assert(addr@ =~= address_text(self.host(), self.port()));
        addr
    }

    /// The handler, as it stands.
    pub fn handler(&self) -> (handler: &T)
        ensures
            *handler == self.handler_state(),
    {
        &self.handler
    }

    /// Hands one accepted connection, which carried `input`, to the handler.
    pub fn handle_connection(&mut self, input: &[u8])
        ensures
            old(self).handler_state().handles(input@, &final(self).handler_state()),
            final(self).host() == old(self).host(),
            final(self).port() == old(self).port(),
    {
        self.handler.handle_client(input);
    }
}

} // verus!
