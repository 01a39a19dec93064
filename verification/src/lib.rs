//! An in-memory key/value cache speaking a simplified subset of the
//! memcached text protocol: `set`, `get`, `add`, `replace`, `append` and
//! `prepend`, with per-entry lazy expiration.
//!
//! The store maps keys to entries and is shared by every connection; the
//! command processor parses one command line, applies it to the store under
//! the documented conflict rules, and emits a protocol-exact response. The
//! network loop around the library reads raw bytes, hands them over, and
//! writes the responses back.
//!
//! Concurrency is modeled sequentially: the underlying map is safe for
//! concurrent per-key access, but the store's mutating methods take
//! `&mut self`, so the verifier sees each operation as one atomic step on
//! exclusively held state. A program sharing the store across threads must
//! serialize its borrows, giving up the map's cross-key parallelism; what is
//! proved is the per-key linearization of each command.

pub mod command;
pub mod data;
pub mod expire;
pub mod laws;
pub mod parse;
pub mod response;
