use bytes::BytesMut;
use http_cmp::incoming::{finish_read, try_write_into_cursor, uring_read_into, BufferedBytesMut};
use http_cmp::outgoing::UnreadRange;
use tokio::io::ReadBuf;

/// A buffer into which the stream has put `bytes`.
fn received(bytes: &[u8]) -> BufferedBytesMut {
    finish_read(BytesMut::from(bytes), None, bytes.len())
}

#[test]
fn nothing_to_serve() {
    let mut buffered = BufferedBytesMut::new(BytesMut::zeroed(4));
    let mut room = [0u8; 4];
    let mut cursor = ReadBuf::new(&mut room);
    assert!(!try_write_into_cursor(&mut buffered, &mut cursor));
    assert_eq!(cursor.filled(), b"");
}

#[test]
fn serves_all_that_fits() {
    let mut buffered = received(b"hello");
    let mut room = [0u8; 8];
    let mut cursor = ReadBuf::new(&mut room);
    cursor.put_slice(b"..");
    assert!(try_write_into_cursor(&mut buffered, &mut cursor));
    assert_eq!(cursor.filled(), b"..hello");
    assert!(!try_write_into_cursor(&mut buffered, &mut cursor));
}

#[test]
fn serves_in_order_over_several_readers() {
    let mut buffered = received(b"hello world");
    let mut served: Vec<u8> = Vec::new();
    let mut rounds = 0;
    loop {
        let mut room = [0u8; 3];
        let mut cursor = ReadBuf::new(&mut room);
        if !try_write_into_cursor(&mut buffered, &mut cursor) {
            break;
        }
        served.extend_from_slice(cursor.filled());
        rounds += 1;
    }
    assert_eq!(served, b"hello world");
    assert_eq!(rounds, 4);
}

#[test]
fn end_of_stream_is_served_once() {
    let mut buffered = finish_read(BytesMut::zeroed(4), None, 0);
    let mut room = [0u8; 4];
    let mut cursor = ReadBuf::new(&mut room);
    assert!(try_write_into_cursor(&mut buffered, &mut cursor));
    assert_eq!(cursor.filled(), b"");
    assert!(!try_write_into_cursor(&mut buffered, &mut cursor));
}

#[test]
fn reader_without_room_takes_nothing() {
    let mut buffered = received(b"ab");
    let mut none: [u8; 0] = [];
    let mut cursor = ReadBuf::new(&mut none);
    assert!(try_write_into_cursor(&mut buffered, &mut cursor));
    let mut room = [0u8; 4];
    let mut cursor = ReadBuf::new(&mut room);
    assert!(try_write_into_cursor(&mut buffered, &mut cursor));
    assert_eq!(cursor.filled(), b"ab");
}

#[test]
fn only_what_was_written_is_served() {
    let mut buffered = finish_read(BytesMut::from(&b"abcdef"[..]), None, 2);
    let mut room = [0u8; 8];
    let mut cursor = ReadBuf::new(&mut room);
    assert!(try_write_into_cursor(&mut buffered, &mut cursor));
    assert_eq!(cursor.filled(), b"ab");
}

#[test]
fn read_extends_an_unread_stretch() {
    let range = Some(UnreadRange { start: 1, count: 2 });
    let mut buffered = finish_read(BytesMut::from(&b"abcdef"[..]), range, 2);
    let mut room = [0u8; 8];
    let mut cursor = ReadBuf::new(&mut room);
    assert!(try_write_into_cursor(&mut buffered, &mut cursor));
    assert_eq!(cursor.filled(), b"bcde");
}

#[test]
fn read_hands_the_room_out() {
    let (bytes, range) = uring_read_into(BufferedBytesMut::new(BytesMut::zeroed(5)));
    assert_eq!(&bytes[..], &[0u8; 5]);
    assert!(range.is_none());
    let (bytes, range) = uring_read_into(received(b"xyz"));
    assert_eq!(&bytes[..], b"xyz");
    let range = range.unwrap();
    assert_eq!((range.start, range.count), (0, 3));
}
