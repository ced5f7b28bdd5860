//! The sink in its plainest form: one connection at a time, each handled to
//! its end by a handler that owns the store and the counters.

pub mod handler;
pub mod server;
pub mod store;
