use cql_transport::frame::{CqlError, Frame, ReqFrame, Request, Response};
use cql_transport::transport::{
    CqlTransport, FlushStep, ParseOutcome, ReadEvent, ReadStatus, WriteEvent,
};

// A stand-in codec for the tests: tag byte, length byte, then the payload.
// The transport never looks inside these bytes; the tests play the role of
// the external codec exactly as the surrounding application would.

fn serialize(req: &Request) -> Vec<u8> {
    let (tag, payload): (u8, &Vec<u8>) = match req {
        Request::Options(p) => (1u8, p),
        Request::Startup(p) => (2u8, p),
        Request::Query(p) => (3u8, p),
    };
    let mut out: Vec<u8> = vec![tag, payload.len() as u8];
    out.extend_from_slice(payload);
    out
}

fn parse(bytes: &[u8]) -> ParseOutcome {
    if bytes.is_empty() {
        return ParseOutcome::Incomplete;
    }
    if bytes[0] != 9u8 {
        return ParseOutcome::Malformed;
    }
    if bytes.len() < 2 {
        return ParseOutcome::Incomplete;
    }
    let body_len: usize = bytes[1] as usize;
    if bytes.len() < 2 + body_len {
        return ParseOutcome::Incomplete;
    }
    let body: Vec<u8> = bytes[2..2 + body_len].to_vec();
    ParseOutcome::Complete(Response::Result(body), 2 + body_len)
}

// Drain the write pipeline against a connection that accepts at most
// `chunk` bytes per write, collecting every accepted byte in order.
fn drain(t: &mut CqlTransport, chunk: usize, wire: &mut Vec<u8>) {
    loop {
        match t.flush() {
            FlushStep::Flushed => return,
            FlushStep::Serialize(cmd) => {
                t.refill(serialize(&cmd));
            }
            FlushStep::Write => {
                let tail: Vec<u8> = t.pending_write().to_vec();
                let n: usize = chunk.min(tail.len());
                wire.extend_from_slice(&tail[..n]);
                t.wr_flush(WriteEvent::Wrote(n)).unwrap();
            }
        }
    }
}

#[test]
fn new_transport_is_empty() {
    let t = CqlTransport::new();
    assert!(!t.is_done());
    assert_eq!(t.rd_buf().len(), 0);
    assert_eq!(t.wr_pos(), 0);
    assert_eq!(t.wr_remaining(), 0);
    assert!(t.wr_is_empty());
    assert_eq!(t.pending_write(), &[]);
}

#[test]
fn poll_write_always_ready() {
    let t = CqlTransport::new();
    assert!(t.poll_write());
}

// The worked example: the connection delivers [1, 2], reports would-block,
// then delivers [3, 4]; a complete four-byte message spans all of them.
#[test]
fn example_scenario() {
    let mut t = CqlTransport::new();

    assert_eq!(t.ingest(ReadEvent::Data(vec![9u8, 2u8])), Ok(true));
    assert_eq!(t.ingest(ReadEvent::WouldBlock), Ok(false));
    let first = t.read(parse(t.rd_buf().as_slice()));
    assert_eq!(first, Ok(ReadStatus::NotReady));
    assert_eq!(t.rd_buf().as_slice(), &[9u8, 2u8]);

    assert_eq!(t.ingest(ReadEvent::Data(vec![7u8, 8u8])), Ok(true));
    let second = t.read(parse(t.rd_buf().as_slice()));
    assert_eq!(
        second,
        Ok(ReadStatus::Ready(Frame::Message(Response::Result(vec![7u8, 8u8]))))
    );
    assert_eq!(t.rd_buf().len(), 0);
}

// However a message is fragmented, with would-blocks interleaved, each
// incomplete delivery reports "not ready" and the reassembled message is
// exactly the original.
#[test]
fn arbitrary_split_reconstructs_message() {
    let full: Vec<u8> = vec![9u8, 4u8, 10u8, 20u8, 30u8, 40u8];
    for cut1 in 1..full.len() {
        for cut2 in cut1..full.len() {
            let mut t = CqlTransport::new();
            for piece in [&full[..cut1], &full[cut1..cut2], &full[cut2..]] {
                if piece.is_empty() {
                    continue;
                }
                assert_eq!(t.ingest(ReadEvent::Data(piece.to_vec())), Ok(true));
                assert_eq!(t.ingest(ReadEvent::WouldBlock), Ok(false));
                if t.rd_buf().len() < full.len() {
                    assert_eq!(t.read(parse(t.rd_buf().as_slice())), Ok(ReadStatus::NotReady));
                }
            }
            let got = t.read(parse(t.rd_buf().as_slice()));
            assert_eq!(
                got,
                Ok(ReadStatus::Ready(Frame::Message(Response::Result(vec![
                    10u8, 20u8, 30u8, 40u8
                ]))))
            );
            assert_eq!(t.rd_buf().len(), 0);
        }
    }
}

// After a parse consuming K bytes, the buffer equals the prior buffer with
// exactly its first K bytes removed, the rest in original order.
#[test]
fn parse_consumes_exact_prefix() {
    let mut t = CqlTransport::new();
    // One complete two-byte message followed by trailing bytes.
    assert_eq!(
        t.ingest(ReadEvent::Data(vec![9u8, 0u8, 9u8, 1u8, 5u8, 9u8])),
        Ok(true)
    );
    let first = t.read(parse(t.rd_buf().as_slice()));
    assert_eq!(first, Ok(ReadStatus::Ready(Frame::Message(Response::Result(vec![])))));
    assert_eq!(t.rd_buf().as_slice(), &[9u8, 1u8, 5u8, 9u8]);

    let second = t.read(parse(t.rd_buf().as_slice()));
    assert_eq!(second, Ok(ReadStatus::Ready(Frame::Message(Response::Result(vec![5u8])))));
    assert_eq!(t.rd_buf().as_slice(), &[9u8]);
}

// The bytes written to the connection are the concatenation of the
// serialized messages in enqueue order, even when the connection accepts
// only a few bytes per write.
#[test]
fn fifo_concatenation_across_partial_writes() {
    let m1 = Request::Query(vec![100u8, 101u8, 102u8]);
    let m2 = Request::Options(vec![]);
    let m3 = Request::Startup(vec![200u8]);
    let mut expected: Vec<u8> = Vec::new();
    expected.extend_from_slice(&serialize(&m1));
    expected.extend_from_slice(&serialize(&m2));
    expected.extend_from_slice(&serialize(&m3));

    for chunk in 1..=expected.len() {
        let mut t = CqlTransport::new();
        let mut wire: Vec<u8> = Vec::new();
        t.write(Frame::Message(m1.clone())).unwrap();
        drain(&mut t, chunk, &mut wire);
        t.write(Frame::Message(m2.clone())).unwrap();
        t.write(Frame::Message(m3.clone())).unwrap();
        drain(&mut t, chunk, &mut wire);
        assert_eq!(wire, expected);
        assert!(t.wr_is_empty());
    }
}

// Repeated partial writes of one cursor lose, duplicate and reorder
// nothing: the total written before exhaustion equals the buffer length.
#[test]
fn partial_writes_drain_cursor_exactly() {
    let buf: Vec<u8> = vec![1u8, 2u8, 3u8, 4u8, 5u8, 6u8, 7u8];
    let mut t = CqlTransport::new();
    t.refill(buf.clone());
    assert_eq!(t.wr_remaining(), 7);
    assert_eq!(t.pending_write(), buf.as_slice());

    let mut wire: Vec<u8> = Vec::new();
    let mut total: usize = 0;
    for step in [3usize, 1, 2, 1] {
        let tail: Vec<u8> = t.pending_write().to_vec();
        assert_eq!(tail.as_slice(), &buf[total..]);
        wire.extend_from_slice(&tail[..step]);
        assert_eq!(t.wr_flush(WriteEvent::Wrote(step)), Ok(true));
        total += step;
        assert_eq!(t.wr_pos(), total);
        assert_eq!(t.wr_remaining(), buf.len() - total);
    }
    assert_eq!(total, buf.len());
    assert!(t.wr_is_empty());
    assert_eq!(wire, buf);
    assert_eq!(t.flush(), FlushStep::Flushed);
}

// An unsupported frame variant fails explicitly and leaves the queue and
// cursor untouched for subsequent valid sends.
#[test]
fn unsupported_frames_leave_state_intact() {
    let mut t = CqlTransport::new();
    t.refill(vec![1u8, 2u8, 3u8]);
    assert_eq!(t.wr_flush(WriteEvent::Wrote(1)), Ok(true));

    let rejected: Vec<ReqFrame> = vec![
        Frame::MessageWithBody(Request::Options(vec![]), ()),
        Frame::Body(None),
        Frame::Error(CqlError::Io),
        Frame::Done,
    ];
    for frame in rejected {
        assert_eq!(t.write(frame), Err(CqlError::UnsupportedFrame));
        assert_eq!(t.wr_pos(), 1);
        assert_eq!(t.wr_remaining(), 2);
        assert_eq!(t.pending_write(), &[2u8, 3u8]);
        assert_eq!(t.flush(), FlushStep::Write);
    }

    // A valid send still goes through, after the cursor drains, in order.
    let m = Request::Query(vec![42u8]);
    assert_eq!(t.write(Frame::Message(m.clone())), Ok(()));
    assert_eq!(t.wr_flush(WriteEvent::Wrote(2)), Ok(true));
    assert_eq!(t.flush(), FlushStep::Serialize(m));
}

// End of stream over a non-empty incomplete prefix is a truncation error,
// never "not ready" and never a successful parse.
#[test]
fn eof_with_incomplete_prefix_is_truncation() {
    let mut t = CqlTransport::new();
    assert_eq!(t.ingest(ReadEvent::Data(vec![9u8, 4u8, 1u8])), Ok(true));
    assert_eq!(t.ingest(ReadEvent::Eof), Ok(false));
    assert!(t.is_done());
    assert_eq!(t.read(parse(t.rd_buf().as_slice())), Err(CqlError::Truncated));
    // The verdict does not change on a retry.
    assert_eq!(t.read(parse(t.rd_buf().as_slice())), Err(CqlError::Truncated));
}

// End of stream with an empty buffer reports closed, consistently.
#[test]
fn eof_with_empty_buffer_reports_closed() {
    let mut t = CqlTransport::new();
    assert_eq!(t.ingest(ReadEvent::Eof), Ok(false));
    assert!(t.is_done());
    assert_eq!(t.read(parse(t.rd_buf().as_slice())), Ok(ReadStatus::Closed));
    assert_eq!(t.read(parse(t.rd_buf().as_slice())), Ok(ReadStatus::Closed));
}

// A message completed exactly at end of stream still parses; only a
// dangling remainder is a truncation.
#[test]
fn eof_after_complete_message_still_parses() {
    let mut t = CqlTransport::new();
    assert_eq!(t.ingest(ReadEvent::Data(vec![9u8, 1u8, 77u8])), Ok(true));
    assert_eq!(t.ingest(ReadEvent::Eof), Ok(false));
    assert_eq!(
        t.read(parse(t.rd_buf().as_slice())),
        Ok(ReadStatus::Ready(Frame::Message(Response::Result(vec![77u8]))))
    );
    assert_eq!(t.read(parse(t.rd_buf().as_slice())), Ok(ReadStatus::Closed));
}

// A malformed prefix is a fatal protocol error.
#[test]
fn malformed_bytes_are_fatal() {
    let mut t = CqlTransport::new();
    assert_eq!(t.ingest(ReadEvent::Data(vec![8u8, 0u8])), Ok(true));
    assert_eq!(t.read(parse(t.rd_buf().as_slice())), Err(CqlError::Malformed));
}

// An unexpected connection failure during a read is fatal and changes
// nothing buffered.
#[test]
fn read_failure_propagates() {
    let mut t = CqlTransport::new();
    assert_eq!(t.ingest(ReadEvent::Data(vec![9u8])), Ok(true));
    assert_eq!(t.ingest(ReadEvent::Failed), Err(CqlError::Io));
    assert_eq!(t.rd_buf().as_slice(), &[9u8]);
    assert!(!t.is_done());
}

// A would-block during a write preserves the cursor and queue exactly; an
// unexpected failure is fatal and preserves them too.
#[test]
fn write_would_block_and_failure_preserve_state() {
    let mut t = CqlTransport::new();
    t.write(Frame::Message(Request::Options(vec![5u8]))).unwrap();
    t.refill(vec![1u8, 2u8, 3u8]);
    assert_eq!(t.wr_flush(WriteEvent::Wrote(1)), Ok(true));

    assert_eq!(t.wr_flush(WriteEvent::WouldBlock), Ok(false));
    assert_eq!(t.wr_pos(), 1);
    assert_eq!(t.pending_write(), &[2u8, 3u8]);

    assert_eq!(t.wr_flush(WriteEvent::Failed), Err(CqlError::Io));
    assert_eq!(t.wr_pos(), 1);
    assert_eq!(t.pending_write(), &[2u8, 3u8]);
    assert_eq!(t.flush(), FlushStep::Write);
}
