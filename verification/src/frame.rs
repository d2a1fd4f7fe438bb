//! The envelope exchanged with the outer multiplexer, the protocol message
//! types it wraps, and the transport's error taxonomy.
//!
//! Message payloads are opaque to the transport: it never inspects them, it
//! only queues them for serialization and hands parsed ones back. Each
//! variant therefore carries its content as plain bytes; the external codec
//! alone gives those bytes meaning.

use vstd::prelude::*;

verus! {

/// Terminal failures surfaced by the transport.
///
/// A would-block condition is not an error: it is absorbed internally and
/// reported upward as "not ready". Everything here is fatal for the
/// connection; the transport performs no retry or recovery.
#[derive(Clone, Copy, Debug, PartialEq, Eq, Structural)]
pub enum CqlError {
    /// A frame variant the transport does not implement was submitted.
    UnsupportedFrame,
    /// End of stream arrived while an incomplete message was still buffered.
    Truncated,
    /// The codec rejected the buffered bytes: protocol desynchronization.
    Malformed,
    /// An unexpected connection failure other than would-block.
    Io,
}

/// An outbound protocol request, opaque beyond its byte payload.
#[derive(Clone, Debug, PartialEq, Eq)]
pub enum Request {
    Options(Vec<u8>),
    Startup(Vec<u8>),
    Query(Vec<u8>),
}

/// An inbound protocol response, opaque beyond its byte payload.
#[derive(Clone, Debug, PartialEq, Eq)]
pub enum Response {
    Error(Vec<u8>),
    Authenticate(Vec<u8>),
    Supported(Vec<u8>),
    Result(Vec<u8>),
    SetKeyspace(Vec<u8>),
    Prepared(Vec<u8>),
    SchemaChange(Vec<u8>),
}

/// The closed five-variant envelope shared with the outer multiplexer.
///
/// Only `Message` is implemented end-to-end by this transport; the other
/// four describe a richer streaming protocol this core does not support, and
/// any attempt to send one fails fast rather than silently dropping data.
#[derive(Clone, Debug, PartialEq, Eq)]
pub enum Frame<M, B, E> {
    Message(M),
    MessageWithBody(M, B),
    Body(Option<B>),
    Error(E),
    Done,
}

/// The envelope carrying an outbound request.
pub type ReqFrame = Frame<Request, (), CqlError>;

/// The envelope carrying an inbound response.
pub type RespFrame = Frame<Response, (), CqlError>;

} // verus!
