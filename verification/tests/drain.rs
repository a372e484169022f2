use http_cmp::drain::{DrainBodyFuture, DrainError, DrainPoll, FramePoll};

fn drain() -> DrainBodyFuture<u8> {
    DrainBodyFuture::new_trusted_length(9, 512)
}

fn data(chunk: &[u8], end_stream: bool) -> FramePoll<'_> {
    FramePoll::Data { chunk, end_stream }
}

fn bytes_of(poll: DrainPoll) -> Vec<u8> {
    match poll {
        DrainPoll::Ready(Ok(bytes)) => bytes,
        _ => panic!("the body is collected"),
    }
}

fn error_of(poll: DrainPoll) -> DrainError {
    match poll {
        DrainPoll::Ready(Err(error)) => error,
        _ => panic!("the body cannot be collected"),
    }
}

#[test]
fn chunks_come_out_one_after_the_other() {
    let mut drain = drain();
    assert!(matches!(
        drain.poll(data(b"hello", false)),
        DrainPoll::Pending
    ));
    assert!(matches!(drain.poll(FramePoll::Pending), DrainPoll::Pending));
    assert!(matches!(drain.poll(data(b", ", false)), DrainPoll::Pending));
    assert_eq!(bytes_of(drain.poll(data(b"world", true))), b"hello, world");
}

#[test]
fn body_without_a_marked_end_comes_out_whole() {
    let mut drain = drain();
    assert!(matches!(drain.poll(data(b"ab", false)), DrainPoll::Pending));
    assert_eq!(bytes_of(drain.poll(FramePoll::Finished)), b"ab");
    assert_eq!(bytes_of(drain.poll(FramePoll::Finished)), b"");
}

#[test]
fn empty_body() {
    assert_eq!(bytes_of(drain().poll(FramePoll::Finished)), b"");
}

#[test]
fn failed_frame_is_an_error() {
    let mut drain = drain();
    assert_eq!(
        error_of(drain.poll(FramePoll::Failed)),
        DrainError::PollFailed
    );
    assert_eq!(
        DrainError::PollFailed.message(),
        "Failed to poll next frame"
    );
}

#[test]
fn frame_without_data_is_an_error() {
    let mut drain = drain();
    assert_eq!(
        error_of(drain.poll(FramePoll::NotData)),
        DrainError::NotData
    );
    assert_eq!(
        DrainError::NotData.message(),
        "Failed to get data from frame, not a data frame"
    );
}

#[test]
fn body_is_at_hand() {
    let mut drain = drain();
    assert_eq!(*drain.body_mut(), 9);
    *drain.body_mut() = 10;
    assert_eq!(*drain.body_mut(), 10);
}
