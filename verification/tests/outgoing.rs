use bytes::BytesMut;
use http_cmp::outgoing::{
    try_write_to_stream, OutgoingBuffers, OutgoingWriteBuffer, StreamWrite,
};

/// Lets the stream take `written` bytes of a buffer, and tells which were offered.
fn send(buffer: OutgoingWriteBuffer, written: usize) -> (Vec<u8>, OutgoingWriteBuffer) {
    match try_write_to_stream(buffer) {
        StreamWrite::Finished(same) => (Vec::new(), same),
        StreamWrite::Submit(rest, chunk) => {
            let offered = chunk.to_vec();
            (offered, rest.finish(chunk, written))
        }
    }
}

fn buffers(len: usize) -> OutgoingBuffers {
    OutgoingBuffers::new(BytesMut::zeroed(len), BytesMut::zeroed(len))
}

#[test]
fn copy_into_takes_what_fits() {
    let mut buffer = OutgoingWriteBuffer::new(BytesMut::zeroed(4));
    assert!(!buffer.unwritten());
    assert_eq!(buffer.avail_space(), 4);
    assert_eq!(buffer.copy_into(b"ab"), 2);
    assert!(buffer.unwritten());
    assert_eq!(buffer.space_end(), 2);
    assert_eq!(buffer.avail_space(), 2);
    assert_eq!(buffer.copy_into(b"cdef"), 2);
    assert_eq!(buffer.avail_space(), 0);
    assert_eq!(buffer.copy_into(b"g"), 0);
    assert_eq!(send(buffer, 4).0, b"abcd");
}

#[test]
fn copy_into_leaves_a_last_position_alone() {
    let mut buffer = OutgoingWriteBuffer::new(BytesMut::zeroed(4));
    assert_eq!(buffer.copy_into(b"abc"), 3);
    assert_eq!(buffer.avail_space(), 1);
    assert_eq!(buffer.copy_into(b"d"), 0);
    assert_eq!(send(buffer, 0).0, b"abc");
    let mut single = OutgoingWriteBuffer::new(BytesMut::zeroed(1));
    assert_eq!(single.copy_into(b"a"), 0);
}

#[test]
fn copy_into_of_nothing_takes_nothing() {
    let mut buffer = OutgoingWriteBuffer::new(BytesMut::zeroed(4));
    assert_eq!(buffer.copy_into(b""), 0);
    assert!(!buffer.unwritten());
}

#[test]
fn empty_buffer_is_finished_at_once() {
    let buffer = OutgoingWriteBuffer::new(BytesMut::zeroed(4));
    assert!(matches!(
        try_write_to_stream(buffer),
        StreamWrite::Finished(_)
    ));
}

#[test]
fn partial_write_keeps_the_rest() {
    let mut buffer = OutgoingWriteBuffer::new(BytesMut::zeroed(8));
    assert_eq!(buffer.copy_into(b"abcdef"), 6);
    let (offered, buffer) = send(buffer, 2);
    assert_eq!(offered, b"abcdef");
    assert_eq!(buffer.space_end(), 6);
    assert_eq!(buffer.avail_space(), 2);
    let (offered, mut buffer) = send(buffer, 3);
    assert_eq!(offered, b"cdef");
    assert_eq!(buffer.copy_into(b"ghi"), 2);
    let (offered, buffer) = send(buffer, 3);
    assert_eq!(offered, b"fgh");
    assert!(!buffer.unwritten());
    assert_eq!(buffer.avail_space(), 8);
}

#[test]
fn partial_writes_add_up() {
    let mut first = OutgoingWriteBuffer::new(BytesMut::zeroed(8));
    let mut second = OutgoingWriteBuffer::new(BytesMut::zeroed(8));
    first.copy_into(b"abcdef");
    second.copy_into(b"abcdef");
    let (_, first) = send(first, 1);
    let (_, first) = send(first, 2);
    let (_, second) = send(second, 3);
    assert_eq!(first.space_end(), second.space_end());
    assert_eq!(send(first, 9).0, send(second, 9).0);
}

#[test]
fn write_goes_to_the_waiting_buffer_first() {
    let mut out = buffers(8);
    assert!(out.is_ready());
    assert_eq!(out.write_into_avail(b"abc"), Some(3));
    let active = out.get_unchecked();
    assert!(!out.is_ready());
    assert!(!active.unwritten());
    assert!(out.merge_back(active));
    let (offered, active) = send(out.get_unchecked(), 3);
    assert_eq!(offered, b"abc");
    assert!(!out.merge_back(active));
}

#[test]
fn nothing_is_taken_while_bytes_wait_behind_the_stream() {
    let mut out = buffers(8);
    assert_eq!(out.write_into_avail(b"abc"), Some(3));
    let active = out.get_unchecked();
    assert_eq!(out.write_into_avail(b"def"), None);
    assert!(out.merge_back(active));
}

#[test]
fn write_of_nothing_is_none() {
    let mut out = buffers(8);
    assert_eq!(out.write_into_avail(b""), None);
}

#[test]
fn accepted_bytes_leave_in_order() {
    let mut out = buffers(4);
    let message: &[u8] = b"the quick brown fox jumps over the lazy dog";
    let mut accepted: usize = 0;
    let mut sent: Vec<u8> = Vec::new();
    let mut written: usize = 1;
    while sent.len() < message.len() {
        accepted += out.write_into_avail(&message[accepted..]).unwrap_or(0);
        let active = out.get_unchecked();
        accepted += out.write_into_avail(&message[accepted..]).unwrap_or(0);
        let (offered, active) = send(active, written);
        sent.extend_from_slice(&offered[..offered.len().min(written)]);
        out.merge_back(active);
        written = written % 3 + 1;
    }
    assert_eq!(sent, message);
}

#[test]
fn new_bytes_go_behind_the_waiting_ones() {
    let mut out = buffers(8);
    assert_eq!(out.write_into_avail(b"ab"), Some(2));
    let active = out.get_unchecked();
    out.merge_back(active);
    let active = out.get_unchecked();
    assert_eq!(out.write_into_avail(b"cd"), Some(2));
    let (_, active) = send(active, 1);
    assert!(out.merge_back(active));
    assert_eq!(out.write_into_avail(b"ef"), Some(2));
    let (offered, active) = send(out.get_unchecked(), 1);
    assert_eq!(offered, b"b");
    assert!(out.merge_back(active));
    assert_eq!(send(out.get_unchecked(), 4).0, b"cdef");
}

#[test]
fn nothing_is_taken_behind_a_full_waiting_buffer() {
    let mut out = buffers(4);
    assert_eq!(out.write_into_avail(&[1, 2]), Some(2));
    let active = out.get_unchecked();
    assert!(out.merge_back(active));
    let active = out.get_unchecked();
    assert_eq!(out.write_into_avail(&[3, 4, 5, 6, 7]), Some(4));
    let (offered, active) = send(active, 1);
    assert_eq!(offered, [1, 2]);
    assert!(out.merge_back(active));
    assert_eq!(out.write_into_avail(&[7]), None);
    let (offered, active) = send(out.get_unchecked(), 1);
    assert_eq!(offered, [2]);
    assert!(out.merge_back(active));
    assert_eq!(send(out.get_unchecked(), 4).0, [3, 4, 5, 6]);
}

#[test]
fn buffers_keep_their_room() {
    let mut out = buffers(4);
    assert!(out.is_writable());
    assert!(!OutgoingBuffers::new(BytesMut::zeroed(4), BytesMut::new()).is_writable());
    for written in [0, 1, 2, 3, 9] {
        out.write_into_avail(b"abc");
        let (_, active) = send(out.get_unchecked(), written);
        assert_eq!(active.capacity(), 4);
        out.merge_back(active);
        assert!(out.is_writable());
    }
}
