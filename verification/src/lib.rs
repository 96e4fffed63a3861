//! A small key-value server that speaks a length-prefixed, type-tagged wire
//! protocol.
//!
//! - [`respv2`] is the codec: it decodes a byte buffer into a value tree and
//!   encodes a value tree into bytes, binary-safe in both directions.
//! - [`db`] and [`mem_db`] are the store: a mapping from byte-string keys to
//!   byte-string values.
//! - [`cmd`] holds the commands, each with its reply.
//! - [`server`] reads requests from a receive buffer, performs them on a
//!   store and answers them.
//! - [`laws`] states what holds of them together.
//!
//! Nothing here reads from a socket or takes a lock: the caller owns the
//! connection and the store, and hands in bytes and exclusive access.

pub mod cmd;
pub mod db;
pub mod laws;
pub mod mem_db;
pub mod respv2;
pub mod server;
