//! A deduplicating sink for streams of bounded decimal numbers.
//!
//! Values arrive one per line, are tested against a membership store, counted
//! as unique or duplicate, and every first-seen value yields one fixed-width
//! record for an append-only log. Every rule of that pipeline is stated as a
//! contract here and proved; threads, sockets and files stay with the caller.

pub mod engine;
pub mod laws;
pub mod printer;
pub mod server;
pub mod single;
pub mod store;
pub mod text;
pub mod writer;
