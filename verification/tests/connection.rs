use bytes::BytesMut;
use http_cmp::hyper_tokio_compat::TokioUringIo;
use http_cmp::incoming::{finish_read, uring_read_into};
use http_cmp::outgoing::{try_write_to_stream, OutgoingWriteBuffer, StreamWrite};
use http_cmp::uring_compat::{
    busy_message, FlushStep, OutgoingNext, OutgoingPoll, ReadNext, ReadOutcome, ReadPoll,
    TokioUringExecutor, UringTcp, WriteOutcome, WriteStep,
};
use tokio::io::ReadBuf;

/// Lets the stream take `written` bytes of a buffer.
fn send(buffer: OutgoingWriteBuffer, written: usize, wire: &mut Vec<u8>) -> OutgoingWriteBuffer {
    match try_write_to_stream(buffer) {
        StreamWrite::Finished(same) => same,
        StreamWrite::Submit(rest, chunk) => {
            let taken = chunk.len().min(written);
            wire.extend_from_slice(&chunk[..taken]);
            rest.finish(chunk, written)
        }
    }
}

/// The buffer of the write that is to be started.
fn started(tcp: &mut UringTcp<u8>) -> OutgoingWriteBuffer {
    match tcp.next_outgoing() {
        OutgoingNext::Start(buffer) => buffer,
        OutgoingNext::Resume => panic!("a write is under way"),
    }
}

#[test]
fn stream_is_shared() {
    let tcp = UringTcp::new(7u8, 16);
    assert_eq!(*tcp.stream(), 7);
    assert!(!tcp.is_write_vectored());
    assert!(tcp.is_writable());
    assert!(!UringTcp::new(7u8, 0).is_writable());
}

#[test]
fn writer_is_told_what_was_accepted_once_the_stream_is_busy() {
    let mut tcp = UringTcp::new(0u8, 8);
    let mut wire = Vec::new();
    let message: &[u8] = b"abcdefghijklmnopqrst";
    let accepted = tcp.poll_write(message);
    assert_eq!(accepted, 8);
    let empty = started(&mut tcp);
    let returned = send(empty, 0, &mut wire);
    let accepted = match tcp.poll_write_step(message, accepted, WriteOutcome::Ready(returned)) {
        WriteStep::Continue(accepted) => accepted,
        _ => panic!("the writer goes on"),
    };
    assert_eq!(accepted, 16);
    let active = started(&mut tcp);
    assert!(matches!(tcp.next_outgoing(), OutgoingNext::Resume));
    assert!(matches!(
        tcp.poll_write_step(message, accepted, WriteOutcome::Pending),
        WriteStep::Ready(16)
    ));
    let returned = send(active, 8, &mut wire);
    assert!(matches!(
        tcp.poll_outgoing(WriteOutcome::Ready(returned)),
        OutgoingPoll::Ready(true)
    ));
    let returned = send(started(&mut tcp), 8, &mut wire);
    assert!(matches!(
        tcp.poll_outgoing(WriteOutcome::Ready(returned)),
        OutgoingPoll::Ready(false)
    ));
    assert_eq!(wire, b"abcdefghijklmnop");
}

#[test]
fn writer_waits_where_nothing_was_accepted() {
    let mut tcp = UringTcp::new(0u8, 8);
    assert_eq!(tcp.poll_write(b""), 0);
    let _active = started(&mut tcp);
    assert!(matches!(
        tcp.poll_write_step(b"", 0, WriteOutcome::Pending),
        WriteStep::Pending
    ));
    assert!(matches!(
        tcp.poll_outgoing(WriteOutcome::Pending),
        OutgoingPoll::Pending
    ));
}

#[test]
fn failed_write_leaves_a_connection_that_cannot_send() {
    let mut tcp = UringTcp::new(0u8, 8);
    assert!(tcp.can_send());
    assert_eq!(tcp.poll_write(b"ab"), 2);
    let _lost = started(&mut tcp);
    assert!(tcp.can_send());
    assert!(matches!(
        tcp.poll_write_step(b"ab", 2, WriteOutcome::Failed),
        WriteStep::Failed
    ));
    assert!(!tcp.can_send());
}

#[test]
fn flush_goes_on_until_nothing_is_left() {
    let mut tcp = UringTcp::new(0u8, 8);
    let mut wire = Vec::new();
    assert_eq!(tcp.poll_write(b"abcd"), 4);
    let returned = send(started(&mut tcp), 0, &mut wire);
    assert!(matches!(
        tcp.poll_flush(WriteOutcome::Ready(returned)),
        FlushStep::Continue
    ));
    let active = started(&mut tcp);
    assert!(matches!(
        tcp.poll_flush(WriteOutcome::Pending),
        FlushStep::Pending
    ));
    let returned = send(active, 3, &mut wire);
    assert!(matches!(
        tcp.poll_flush(WriteOutcome::Ready(returned)),
        FlushStep::Continue
    ));
    let returned = send(started(&mut tcp), 1, &mut wire);
    assert!(matches!(
        tcp.poll_flush(WriteOutcome::Ready(returned)),
        FlushStep::Ready
    ));
    assert_eq!(wire, b"abcd");
    let _active = started(&mut tcp);
    assert!(matches!(
        tcp.poll_flush(WriteOutcome::Failed),
        FlushStep::Failed
    ));
    assert!(matches!(
        UringTcp::new(0u8, 1).next_outgoing(),
        OutgoingNext::Start(_)
    ));
}

#[test]
fn failed_outgoing_is_told() {
    let mut tcp = UringTcp::new(0u8, 8);
    let _active = started(&mut tcp);
    assert!(matches!(
        tcp.poll_outgoing(WriteOutcome::Failed),
        OutgoingPoll::Failed
    ));
}

#[test]
fn reader_is_served_through_the_stream() {
    let mut tcp = UringTcp::new(0u8, 8);
    let mut room = [0u8; 4];
    let mut cursor = ReadBuf::new(&mut room);
    let buffered = match tcp.poll_read(&mut cursor) {
        ReadNext::Start(buffered) => buffered,
        _ => panic!("the stream is to be read"),
    };
    assert!(matches!(
        tcp.poll_read_step(ReadOutcome::Pending, &mut cursor),
        ReadPoll::Pending
    ));
    assert!(matches!(tcp.poll_read(&mut cursor), ReadNext::Resume));
    let (mut bytes, range) = uring_read_into(buffered);
    assert_eq!(bytes.len(), 8);
    bytes[..6].copy_from_slice(b"abcdef");
    assert!(matches!(
        tcp.poll_read_step(
            ReadOutcome::Ready(finish_read(bytes, range, 6)),
            &mut cursor
        ),
        ReadPoll::Ready
    ));
    assert_eq!(cursor.filled(), b"abcd");
    let mut room = [0u8; 4];
    let mut cursor = ReadBuf::new(&mut room);
    assert!(matches!(tcp.poll_read(&mut cursor), ReadNext::Ready));
    assert_eq!(cursor.filled(), b"ef");
    assert!(matches!(tcp.poll_read(&mut cursor), ReadNext::Start(_)));
}

#[test]
fn failed_read_leaves_a_busy_connection() {
    let mut tcp = UringTcp::new(0u8, 8);
    let mut room = [0u8; 4];
    let mut cursor = ReadBuf::new(&mut room);
    assert!(matches!(tcp.poll_read(&mut cursor), ReadNext::Start(_)));
    assert!(matches!(
        tcp.poll_read_step(ReadOutcome::Failed, &mut cursor),
        ReadPoll::Failed
    ));
    match tcp.poll_read(&mut cursor) {
        ReadNext::Busy {
            buf_present,
            fut_present,
        } => {
            assert!(!buf_present && !fut_present);
            assert_eq!(
                busy_message(buf_present, fut_present),
                "async read is busy - buf present=false, fut present=false"
            );
        }
        _ => panic!("nothing is left to read into"),
    }
    assert_eq!(
        busy_message(true, true),
        "async read is busy - buf present=true, fut present=true"
    );
}

#[test]
fn end_of_stream_reaches_the_reader() {
    let mut tcp = UringTcp::new(0u8, 8);
    let mut room = [0u8; 4];
    let mut cursor = ReadBuf::new(&mut room);
    assert!(matches!(tcp.poll_read(&mut cursor), ReadNext::Start(_)));
    let ended = finish_read(BytesMut::zeroed(8), None, 0);
    assert!(matches!(
        tcp.poll_read_step(ReadOutcome::Ready(ended), &mut cursor),
        ReadPoll::Ready
    ));
    assert_eq!(cursor.filled(), b"");
}

#[test]
fn io_holds_the_connection() {
    let mut io = TokioUringIo::new(vec![1u8, 2]);
    assert_eq!(io.inner(), &vec![1u8, 2]);
    io.inner_mut().push(3);
    assert_eq!(io.inner(), &vec![1u8, 2, 3]);
    let executor = TokioUringExecutor;
    let _same = executor;
    let _copy = executor;
}

#[test]
fn told_bytes_leave_in_order() {
    let mut tcp = UringTcp::new(0u8, 4);
    let message: &[u8] = b"she sells sea shells by the sea shore";
    let mut told: usize = 0;
    let mut wire = Vec::new();
    let mut took: usize = 1;
    let mut flying: Option<OutgoingWriteBuffer> = None;
    while told < message.len() {
        let rest = &message[told..];
        let mut accepted = tcp.poll_write(rest);
        for round in 0..3 {
            if let OutgoingNext::Start(buffer) = tcp.next_outgoing() {
                flying = Some(buffer);
            }
            let outcome = if round < 2 {
                took = took % 3 + 1;
                let buffer = flying.take().unwrap();
                WriteOutcome::Ready(send(buffer, took, &mut wire))
            } else {
                WriteOutcome::Pending
            };
            match tcp.poll_write_step(rest, accepted, outcome) {
                WriteStep::Continue(by_now) => accepted = by_now,
                WriteStep::Ready(accepted) => told += accepted,
                WriteStep::Pending => {}
                WriteStep::Failed => panic!("the stream does not fail"),
            }
        }
    }
    loop {
        if let OutgoingNext::Start(buffer) = tcp.next_outgoing() {
            flying = Some(buffer);
        }
        let returned = send(flying.take().unwrap(), 3, &mut wire);
        if let FlushStep::Ready = tcp.poll_flush(WriteOutcome::Ready(returned)) {
            break;
        }
    }
    assert_eq!(wire, message);
}
