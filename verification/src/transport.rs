//! The transport state machine: a read pipeline that accumulates connection
//! bytes and consumes parsed prefixes, and a write pipeline that drains a
//! FIFO queue of outbound messages through one resumable write cursor.
//!
//! The connection and the codec are external: the caller issues the actual
//! non-blocking reads and writes and runs the codec, then reports each
//! outcome to the transport as a plain event. The contracts here pin down
//! exactly how every event transforms the buffered state, and the ghost
//! write history proves that the byte stream handed to the connection is
//! precisely the concatenation of the installed serialized messages, with
//! nothing lost, duplicated or reordered.

use vstd::prelude::*;
use vstd::slice::slice_subrange;
use crate::frame::{CqlError, Request, Response, Frame, ReqFrame, RespFrame};

verus! {

/// The outcome of one non-blocking read issued on the connection.
#[derive(Debug)]
pub enum ReadEvent {
    /// The connection returned these bytes.
    Data(Vec<u8>),
    /// The connection reported end of stream (a read of zero bytes).
    Eof,
    /// The connection cannot make progress right now.
    WouldBlock,
    /// The connection failed with an unexpected error.
    Failed,
}

/// The outcome of one non-blocking write of the cursor's unwritten tail.
#[derive(Debug)]
pub enum WriteEvent {
    /// The connection accepted this many bytes of the tail it was offered.
    Wrote(usize),
    /// The connection cannot make progress right now.
    WouldBlock,
    /// The connection failed with an unexpected error.
    Failed,
}

/// What the external codec reported for the front of the read buffer.
#[derive(Debug)]
pub enum ParseOutcome {
    /// A complete message, and the number of buffered bytes it consumed.
    Complete(Response, usize),
    /// Not enough bytes buffered yet to frame a message.
    Incomplete,
    /// The buffered bytes violate the protocol framing.
    Malformed,
}

/// The read pipeline's answer for one parse attempt.
#[derive(Debug, PartialEq, Eq)]
pub enum ReadStatus {
    /// A complete message was consumed from the buffer front.
    Ready(RespFrame),
    /// More bytes are needed; retry after the next readiness notification.
    NotReady,
    /// Orderly end of stream with nothing left buffered.
    Closed,
}

/// What the write pipeline needs next in order to make progress.
#[derive(Debug, PartialEq, Eq)]
pub enum FlushStep {
    /// The cursor still holds unwritten bytes: write some of its tail.
    Write,
    /// The cursor is drained: serialize this dequeued message and install
    /// the result with `refill`.
    Serialize(Request),
    /// Cursor drained and queue empty: everything enqueued is on the wire.
    Flushed,
}

/// The mathematical state of a transport.
#[verifier::ext_equal]
pub ghost struct TransportView {
    /// Bytes received but not yet consumed by a successful parse.
    pub rd: Seq<u8>,
    /// True once the connection has reported end of stream.
    pub done: bool,
    /// Outbound messages awaiting serialization, oldest first.
    pub cmds: Seq<Request>,
    /// The serialized message currently being drained.
    pub wr: Seq<u8>,
    /// How many bytes of `wr` the connection has already accepted.
    pub pos: int,
    /// Every byte the connection has accepted, in order.
    pub sent: Seq<u8>,
    /// Every serialized buffer ever installed in the cursor, concatenated
    /// in installation order.
    pub hist: Seq<u8>,
}

impl TransportView {
    /// The unwritten tail of the current write cursor.
    pub open spec fn unsent(self) -> Seq<u8> {
        self.wr.skip(self.pos)
    }

    /// Well-formedness: the cursor position stays within its buffer, and
    /// the bytes already accepted by the connection, followed by the
    /// unwritten tail, are exactly the installed buffers in order. This is
    /// the no-loss / no-duplication / no-reordering guarantee of the write
    /// pipeline.
    pub open spec fn inv(self) -> bool {
        &&& 0 <= self.pos <= self.wr.len()
        &&& self.sent + self.unsent() == self.hist
    }
}

/// The state reached from `v` when the connection delivers the bytes `b`.
pub open spec fn spec_ingest_data(v: TransportView, b: Seq<u8>) -> TransportView {
    TransportView { rd: v.rd + b, ..v }
}

/// The state reached from `v` when `flush` dequeues the oldest queued
/// message for serialization.
pub open spec fn spec_dequeue(v: TransportView) -> TransportView {
    TransportView { cmds: v.cmds.skip(1), ..v }
}

/// The state reached from `v` when `refill` installs the serialized bytes
/// `buf` in the drained cursor.
pub open spec fn spec_refill(v: TransportView, buf: Seq<u8>) -> TransportView {
    TransportView { wr: buf, pos: 0, hist: v.hist + buf, ..v }
}

/// Line transport: one duplex connection's worth of buffered state.
pub struct CqlTransport {
    // Set once the connection reports end of stream.
    done: bool,
    // Buffered read data.
    rd: Vec<u8>,
    // The serialized message currently being written.
    wr: Vec<u8>,
    // How much of `wr` the connection has accepted so far.
    pos: usize,
    // Queued requests.
    cmds: Vec<Request>,
    // Ghost history: bytes the connection accepted.
    sent: Ghost<Seq<u8>>,
    // Ghost history: buffers installed in the cursor, concatenated.
    hist: Ghost<Seq<u8>>,
}

impl View for CqlTransport {
    type V = TransportView;

    closed spec fn view(&self) -> TransportView {
        TransportView {
            rd: self.rd@,
            done: self.done,
            cmds: self.cmds@,
            wr: self.wr@,
            pos: self.pos as int,
            sent: self.sent@,
            hist: self.hist@,
        }
    }
}

impl CqlTransport {
    /// Well-formedness of the executable transport.
    pub open spec fn inv(self) -> bool {
        self@.inv()
    }

    /// A fresh transport: nothing buffered, nothing queued, stream open.
    pub fn new() -> (t: CqlTransport)
        ensures
            t.inv(),
            t@.rd == Seq::<u8>::empty(),
            !t@.done,
            t@.cmds == Seq::<Request>::empty(),
            t@.wr == Seq::<u8>::empty(),
            t@.pos == 0,
            t@.sent == Seq::<u8>::empty(),
            t@.hist == Seq::<u8>::empty(),
    {
        let t = CqlTransport {
            done: false,
            rd: Vec::new(),
            wr: Vec::new(),
            pos: 0,
            cmds: Vec::new(),
            sent: Ghost(Seq::empty()),
            hist: Ghost(Seq::empty()),
        };
        proof {
            assert(t@.sent + t@.unsent() =~= t@.hist);
        }
        t
    }

    /// Position of the write cursor: bytes of the current buffer already
    /// accepted by the connection.
    pub fn wr_pos(&self) -> (r: usize)
        ensures
            r == self@.pos,
    {
        self.pos
    }

    /// How many bytes of the current write buffer remain unwritten.
    pub fn wr_remaining(&self) -> (r: usize)
        requires
            self.inv(),
        ensures
            r == self@.wr.len() - self@.pos,
    {
        self.wr.len() - self.pos
    }

    /// True when the write cursor is exhausted and eligible for a refill.
    pub fn wr_is_empty(&self) -> (r: bool)
        requires
            self.inv(),
        ensures
            r == (self@.pos == self@.wr.len()),
    {
        self.wr_remaining() == 0
    }

    /// The write side is always ready to accept another enqueued message:
    /// admission control is delegated entirely to the outer multiplexer.
    pub fn poll_write(&self) -> (r: bool)
        ensures
            r,
    {
        true
    }

    /// True once the connection has reported end of stream; the read side
    /// must issue no further reads after this.
    pub fn is_done(&self) -> (r: bool)
        ensures
            r == self@.done,
    {
        self.done
    }

    /// The bytes received but not yet consumed by a parse, for the caller
    /// to hand to the external codec.
    pub fn rd_buf(&self) -> (r: &Vec<u8>)
        ensures
            r@ == self@.rd,
    {
        &self.rd
    }

    /// The unwritten tail of the write cursor, for the caller to offer to
    /// the connection's next non-blocking write.
    pub fn pending_write(&self) -> (r: &[u8])
        requires
            self.inv(),
        ensures
            r@ == self@.unsent(),
    {
        let r = slice_subrange(self.wr.as_slice(), self.pos, self.wr.len());
        proof {
            assert(self@.wr.subrange(self@.pos, self@.wr.len() as int) =~= self@.unsent());
        }
        r
    }

    /// Apply the outcome of one non-blocking read issued on the connection.
    ///
    /// Delivered bytes are appended to the read buffer in arrival order;
    /// end of stream latches the closed flag; would-block changes nothing.
    /// The result says whether the ingestion loop should issue another
    /// read (`Ok(true)`) or stop (`Ok(false)`); any other connection
    /// failure is fatal and leaves the state as it was.
    pub fn ingest(&mut self, ev: ReadEvent) -> (r: Result<bool, CqlError>)
        requires
            old(self).inv(),
            !old(self)@.done,
        ensures
            final(self).inv(),
            final(self)@.cmds == old(self)@.cmds,
            final(self)@.wr == old(self)@.wr,
            final(self)@.pos == old(self)@.pos,
            final(self)@.sent == old(self)@.sent,
            final(self)@.hist == old(self)@.hist,
            (ev matches ReadEvent::Data(b) ==>
                final(self)@ == spec_ingest_data(old(self)@, b@)
                && r == Ok::<bool, CqlError>(true)),
            (ev is Eof ==>
                final(self)@ == (TransportView { done: true, ..old(self)@ })
                && r == Ok::<bool, CqlError>(false)),
            (ev is WouldBlock ==>
                final(self)@ == old(self)@ && r == Ok::<bool, CqlError>(false)),
            (ev is Failed ==>
                final(self)@ == old(self)@ && r == Err::<bool, CqlError>(CqlError::Io)),
    {
        match ev {
            ReadEvent::Data(mut b) => {
                let ghost b0 = b@;
                self.rd.append(&mut b);
                proof {
                    assert(self@ =~= spec_ingest_data(old(self)@, b0));
                }
                Ok(true)
            },
            ReadEvent::Eof => {
                self.done = true;
                proof {
                    assert(self@ =~= (TransportView { done: true, ..old(self)@ }));
                }
                Ok(false)
            },
            ReadEvent::WouldBlock => Ok(false),
            ReadEvent::Failed => Err(CqlError::Io),
        }
    }

    /// Apply what the external codec reported for the front of the read
    /// buffer.
    ///
    /// A complete message removes exactly the `k` bytes it consumed from
    /// the buffer front, preserving the remainder in order, and is returned
    /// wrapped in the plain-message envelope. An incomplete prefix reports
    /// "not ready" while the stream is open; once the stream has closed it
    /// is a fatal truncation if any bytes are buffered, and an orderly
    /// "closed" if none are. A malformed prefix is a fatal protocol error.
    pub fn read(&mut self, outcome: ParseOutcome) -> (r: Result<ReadStatus, CqlError>)
        requires
            old(self).inv(),
            (outcome matches ParseOutcome::Complete(m, k) ==> k <= old(self)@.rd.len()),
        ensures
            final(self).inv(),
            final(self)@.done == old(self)@.done,
            final(self)@.cmds == old(self)@.cmds,
            final(self)@.wr == old(self)@.wr,
            final(self)@.pos == old(self)@.pos,
            final(self)@.sent == old(self)@.sent,
            final(self)@.hist == old(self)@.hist,
            (outcome matches ParseOutcome::Complete(m, k) ==>
                final(self)@.rd == old(self)@.rd.skip(k as int)
                && r == Ok::<ReadStatus, CqlError>(ReadStatus::Ready(Frame::Message(m)))),
            (outcome is Incomplete ==> final(self)@.rd == old(self)@.rd),
            (outcome is Incomplete && !old(self)@.done ==>
                r == Ok::<ReadStatus, CqlError>(ReadStatus::NotReady)),
            (outcome is Incomplete && old(self)@.done && old(self)@.rd.len() > 0 ==>
                r == Err::<ReadStatus, CqlError>(CqlError::Truncated)),
            (outcome is Incomplete && old(self)@.done && old(self)@.rd.len() == 0 ==>
                r == Ok::<ReadStatus, CqlError>(ReadStatus::Closed)),
            (outcome is Malformed ==>
                final(self)@.rd == old(self)@.rd
                && r == Err::<ReadStatus, CqlError>(CqlError::Malformed)),
    {
        match outcome {
            ParseOutcome::Complete(m, k) => {
                let tail = self.rd.split_off(k);
                self.rd = tail;
                proof {
                    assert(self@.rd =~= old(self)@.rd.skip(k as int));
                }
                Ok(ReadStatus::Ready(Frame::Message(m)))
            },
            ParseOutcome::Incomplete => {
                if self.done {
                    if self.rd.len() > 0 {
                        Err(CqlError::Truncated)
                    } else {
                        Ok(ReadStatus::Closed)
                    }
                } else {
                    Ok(ReadStatus::NotReady)
                }
            },
            ParseOutcome::Malformed => Err(CqlError::Malformed),
        }
    }

    /// Accept one outbound frame.
    ///
    /// Only the plain-message variant is implemented: it is appended to the
    /// back of the outgoing queue, and the caller then drives `flush` to
    /// drain it. Every other variant is rejected explicitly, leaving the
    /// queue and the write cursor exactly as they were.
    pub fn write(&mut self, req: ReqFrame) -> (r: Result<(), CqlError>)
        requires
            old(self).inv(),
        ensures
            final(self).inv(),
            final(self)@.rd == old(self)@.rd,
            final(self)@.done == old(self)@.done,
            final(self)@.wr == old(self)@.wr,
            final(self)@.pos == old(self)@.pos,
            final(self)@.sent == old(self)@.sent,
            final(self)@.hist == old(self)@.hist,
            (req matches Frame::Message(m) ==>
                final(self)@.cmds == old(self)@.cmds.push(m)
                && r == Ok::<(), CqlError>(())),
            (!(req is Message) ==>
                final(self)@ == old(self)@
                && r == Err::<(), CqlError>(CqlError::UnsupportedFrame)),
    {
        match req {
            Frame::Message(cmd) => {
                self.cmds.push(cmd);
                Ok(())
            },
            Frame::MessageWithBody(_, _) => Err(CqlError::UnsupportedFrame),
            Frame::Body(_) => Err(CqlError::UnsupportedFrame),
            Frame::Error(_) => Err(CqlError::UnsupportedFrame),
            Frame::Done => Err(CqlError::UnsupportedFrame),
        }
    }

    /// Decide the write pipeline's next step.
    ///
    /// While the cursor holds unwritten bytes the next step is to write its
    /// tail. Once it is drained, the oldest queued message (if any) is
    /// dequeued and handed back for serialization — the caller serializes
    /// it and installs the bytes with `refill` — preserving strict FIFO
    /// order. With the cursor drained and the queue empty, everything
    /// enqueued has been fully written.
    pub fn flush(&mut self) -> (r: FlushStep)
        requires
            old(self).inv(),
        ensures
            final(self).inv(),
            final(self)@.rd == old(self)@.rd,
            final(self)@.done == old(self)@.done,
            final(self)@.wr == old(self)@.wr,
            final(self)@.pos == old(self)@.pos,
            final(self)@.sent == old(self)@.sent,
            final(self)@.hist == old(self)@.hist,
            (old(self)@.pos < old(self)@.wr.len() ==>
                r == FlushStep::Write && final(self)@ == old(self)@),
            (old(self)@.pos == old(self)@.wr.len() && old(self)@.cmds.len() == 0 ==>
                r == FlushStep::Flushed && final(self)@ == old(self)@),
            (old(self)@.pos == old(self)@.wr.len() && old(self)@.cmds.len() > 0 ==>
                r == FlushStep::Serialize(old(self)@.cmds[0])
                && final(self)@ == spec_dequeue(old(self)@)),
    {
        if self.wr_is_empty() {
            if self.cmds.len() == 0 {
                FlushStep::Flushed
            } else {
                let cmd = self.cmds.remove(0);
                proof {
                    assert(self@.cmds =~= old(self)@.cmds.skip(1));
                    assert(self@ =~= spec_dequeue(old(self)@));
                }
                FlushStep::Serialize(cmd)
            }
        } else {
            FlushStep::Write
        }
    }

    /// Install a freshly serialized message as the new write cursor.
    ///
    /// Only a drained cursor may be refilled, so no unwritten byte is ever
    /// discarded. The installed bytes extend the ghost installation
    /// history, which ties the wire stream to the serialized messages in
    /// dequeue order.
    pub fn refill(&mut self, buf: Vec<u8>)
        requires
            old(self).inv(),
            old(self)@.pos == old(self)@.wr.len(),
        ensures
            final(self).inv(),
            final(self)@.rd == old(self)@.rd,
            final(self)@.done == old(self)@.done,
            final(self)@.cmds == old(self)@.cmds,
            final(self)@.wr == buf@,
            final(self)@.pos == 0,
            final(self)@.sent == old(self)@.sent,
            final(self)@.hist == old(self)@.hist + buf@,
            final(self)@ == spec_refill(old(self)@, buf@),
    {
        proof {
            assert(old(self)@.unsent() =~= Seq::<u8>::empty());
            assert(old(self)@.sent + old(self)@.unsent() =~= old(self)@.sent);
        }
        self.wr = buf;
        self.pos = 0;
        self.hist = Ghost(self.hist@ + self.wr@);
        proof {
            assert(self@.unsent() =~= self@.wr);
            assert(self@.sent + self@.unsent() =~= self@.hist);
            assert(self@ =~= spec_refill(old(self)@, self@.wr));
        }
    }

    /// Apply the outcome of one non-blocking write of the cursor's tail.
    ///
    /// When the connection accepted `n` bytes, they are exactly the first
    /// `n` bytes of the unwritten tail: the cursor advances past them and
    /// they extend the ghost wire stream, so no byte is lost, duplicated
    /// or reordered across partial writes. `Ok(true)` means the drain loop
    /// may continue; a would-block stops it with every buffer preserved;
    /// any other connection failure is fatal and changes nothing.
    pub fn wr_flush(&mut self, ev: WriteEvent) -> (r: Result<bool, CqlError>)
        requires
            old(self).inv(),
            (ev matches WriteEvent::Wrote(n) ==> n <= old(self)@.wr.len() - old(self)@.pos),
        ensures
            final(self).inv(),
            final(self)@.rd == old(self)@.rd,
            final(self)@.done == old(self)@.done,
            final(self)@.cmds == old(self)@.cmds,
            final(self)@.wr == old(self)@.wr,
            final(self)@.hist == old(self)@.hist,
            (ev matches WriteEvent::Wrote(n) ==>
                final(self)@.pos == old(self)@.pos + n
                && final(self)@.sent == old(self)@.sent
                    + old(self)@.wr.subrange(old(self)@.pos, old(self)@.pos + n)
                && r == Ok::<bool, CqlError>(true)),
            (ev is WouldBlock ==>
                final(self)@ == old(self)@ && r == Ok::<bool, CqlError>(false)),
            (ev is Failed ==>
                final(self)@ == old(self)@ && r == Err::<bool, CqlError>(CqlError::Io)),
    {
        match ev {
            WriteEvent::Wrote(n) => {
                let ghost p0 = self@.pos;
                let len = self.wr.len();
                proof {
                    // the new position still lies within the buffer
                    assert(self.pos + n <= len);
                }
                self.pos = self.pos + n;
                self.sent = Ghost(self.sent@ + self.wr@.subrange(p0, p0 + n as int));
                proof {
                    assert(old(self)@.wr.skip(p0) =~= old(self)@.wr.subrange(p0, p0 + n as int)
                        + old(self)@.wr.skip(p0 + n as int));
                    assert(self@.sent + self@.unsent() =~= old(self)@.sent + old(self)@.wr.skip(p0));
                }
                Ok(true)
            },
            WriteEvent::WouldBlock => Ok(false),
            WriteEvent::Failed => Err(CqlError::Io),
        }
    }
}

/// The concatenation of a sequence of byte chunks, in order.
pub open spec fn concat_of(chunks: Seq<Seq<u8>>) -> Seq<u8>
    decreases chunks.len(),
{
    if chunks.len() == 0 {
        Seq::empty()
    } else {
        chunks[0] + concat_of(chunks.skip(1))
    }
}

/// The state reached from `v` after the connection delivers each chunk in
/// turn, as `ingest` applies them.
pub open spec fn spec_ingest_all(v: TransportView, chunks: Seq<Seq<u8>>) -> TransportView
    decreases chunks.len(),
{
    if chunks.len() == 0 {
        v
    } else {
        spec_ingest_all(spec_ingest_data(v, chunks[0]), chunks.skip(1))
    }
}

/// Law: the read buffer does not depend on delivery boundaries. A message
/// split across any number of separate connection reads accumulates to
/// exactly the same buffered bytes as one delivery of the whole — so once
/// all bytes have arrived, the codec sees the original serialized message
/// intact, however it was fragmented. A would-block between deliveries
/// leaves the state untouched (an `ensures` of `ingest`), so interleaving
/// them changes nothing here.
pub proof fn lemma_delivery_boundaries_irrelevant(v: TransportView, chunks: Seq<Seq<u8>>)
    ensures
        spec_ingest_all(v, chunks) == spec_ingest_data(v, concat_of(chunks)),
    decreases chunks.len(),
{
    if chunks.len() == 0 {
        assert(spec_ingest_all(v, chunks) =~= spec_ingest_data(v, concat_of(chunks)));
    } else {
        lemma_delivery_boundaries_irrelevant(spec_ingest_data(v, chunks[0]), chunks.skip(1));
        assert(spec_ingest_data(spec_ingest_data(v, chunks[0]), concat_of(chunks.skip(1)))
            =~= spec_ingest_data(v, concat_of(chunks)));
    }
}

/// The concatenation of the serializations of `cmds`, in order, for a
/// codec whose serialization function is `f`.
pub open spec fn concat_serialized(cmds: Seq<Request>, f: spec_fn(Request) -> Seq<u8>) -> Seq<u8>
    decreases cmds.len(),
{
    if cmds.len() == 0 {
        Seq::empty()
    } else {
        f(cmds[0]) + concat_serialized(cmds.skip(1), f)
    }
}

/// The state reached from `v` by repeatedly dequeuing the oldest queued
/// message and installing its serialization, as one `flush` / `refill`
/// round does, until the queue is empty.
pub open spec fn spec_drain_queue(v: TransportView, f: spec_fn(Request) -> Seq<u8>) -> TransportView
    decreases v.cmds.len(),
{
    if v.cmds.len() == 0 {
        v
    } else {
        spec_drain_queue(spec_refill(spec_dequeue(v), f(v.cmds[0])), f)
    }
}

/// Law: draining the queue installs exactly the serializations of the
/// queued messages, in enqueue order — the installation history grows by
/// their concatenation and by nothing else. Intermediate partial writes do
/// not disturb this: `wr_flush` never changes the history. Together with
/// `lemma_drained_cursor_wrote_everything`, once the last cursor is
/// drained the connection has accepted precisely that concatenation.
pub proof fn lemma_fifo_wire_order(v: TransportView, f: spec_fn(Request) -> Seq<u8>)
    ensures
        spec_drain_queue(v, f).hist == v.hist + concat_serialized(v.cmds, f),
        spec_drain_queue(v, f).cmds.len() == 0,
        spec_drain_queue(v, f).sent == v.sent,
        spec_drain_queue(v, f).rd == v.rd,
        spec_drain_queue(v, f).done == v.done,
    decreases v.cmds.len(),
{
    if v.cmds.len() == 0 {
        assert(v.hist + concat_serialized(v.cmds, f) =~= v.hist);
    } else {
        let w = spec_refill(spec_dequeue(v), f(v.cmds[0]));
        lemma_fifo_wire_order(w, f);
        assert(w.cmds =~= v.cmds.skip(1));
        assert((v.hist + f(v.cmds[0])) + concat_serialized(v.cmds.skip(1), f)
            =~= v.hist + concat_serialized(v.cmds, f));
    }
}

/// Law: whenever the write cursor is drained, the bytes the connection has
/// accepted are exactly the concatenation, in installation order, of every
/// serialized message ever installed — partial writes lose, duplicate and
/// reorder nothing, and each cursor contributes exactly its full buffer.
/// Since `flush` dequeues strictly from the front and `refill` appends the
/// dequeued message's bytes to the installation history, this is the FIFO
/// wire-stream guarantee for enqueued messages.
pub proof fn lemma_drained_cursor_wrote_everything(v: TransportView)
    requires
        v.inv(),
        v.pos == v.wr.len(),
    ensures
        v.sent == v.hist,
{
    assert(v.unsent() =~= Seq::<u8>::empty());
    assert(v.sent + v.unsent() =~= v.sent);
}

} // verus!
