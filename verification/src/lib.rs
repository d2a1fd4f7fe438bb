//! A byte-stream-to-message transport core for a binary request/response
//! protocol: it turns a non-blocking duplex byte connection into a pair of
//! message queues, coordinating partial reads, incremental re-parsing of a
//! growing buffer, partial writes with resumable progress, and end-of-stream
//! detection.
//!
//! The connection and the message codec live outside this crate: the caller
//! performs the actual reads, writes, serializations and parses, and feeds
//! their outcomes to the transport as plain events. Every state transition of
//! the transport itself is specified and verified here.

pub mod frame;
pub mod transport;
