//! Collecting a body that arrives in frames.

use vstd::prelude::*;

verus! {

/// What a body has given when it was asked for its next frame.
pub enum FramePoll<'a> {
    /// Nothing yet.
    Pending,
    /// There is no further frame.
    Finished,
    /// The body failed.
    Failed,
    /// A frame that holds no data.
    NotData,
    /// A frame of data, and whether the body is at its end behind it.
    Data {
        /// The bytes of the frame.
        chunk: &'a [u8],
        /// Whether nothing follows.
        end_stream: bool,
    },
}

/// Why a body could not be collected.
#[derive(Copy, Clone, Debug, PartialEq, Eq, Structural)]
pub enum DrainError {
    /// The body failed.
    PollFailed,
    /// A frame held no data.
    NotData,
}

impl DrainError {
    /// What is told of the error.
    pub open spec fn text(self) -> Seq<char> {
        match self {
            DrainError::PollFailed => "Failed to poll next frame"@,
            DrainError::NotData => "Failed to get data from frame, not a data frame"@,
        }
    }

    /// What is told of the error.
    pub fn message(self) -> (message: &'static str)
        ensures
            message@ == self.text(),
    {
        match self {
            DrainError::PollFailed => "Failed to poll next frame",
            DrainError::NotData => "Failed to get data from frame, not a data frame",
        }
    }
}

/// How far the collection has come.
pub enum DrainPoll {
    /// It is not over.
    Pending,
    /// It is over, with all bytes or an error.
    Ready(Result<Vec<u8>, DrainError>),
}

/// The outcome of asking for a frame while `collected` is what came before: what is
/// collected afterwards, and the bytes or the error that end the collection.
pub open spec fn drain_step(collected: Seq<u8>, frame: FramePoll<'_>) -> (
    Seq<u8>,
    Option<Result<Seq<u8>, DrainError>>,
) {
    match frame {
        FramePoll::Pending => (collected, None),
        FramePoll::Finished => (Seq::empty(), Some(Ok(collected))),
        FramePoll::Failed => (collected, Some(Err(DrainError::PollFailed))),
        FramePoll::NotData => (collected, Some(Err(DrainError::NotData))),
        FramePoll::Data { chunk, end_stream } => if end_stream {
            (Seq::empty(), Some(Ok(collected + chunk@)))
        } else {
            (collected + chunk@, None)
        },
    }
}

impl View for DrainPoll {
    type V = Option<Result<Seq<u8>, DrainError>>;

    open spec fn view(&self) -> Option<Result<Seq<u8>, DrainError>> {
        match self {
            DrainPoll::Pending => None,
            DrainPoll::Ready(Ok(bytes)) => Some(Ok(bytes@)),
            DrainPoll::Ready(Err(error)) => Some(Err(*error)),
        }
    }
}

/// The collection of a body `B`.
pub struct DrainBodyFuture<B> {
    body: B,
    buf: Vec<u8>,
}

impl<B> DrainBodyFuture<B> {
    /// The body.
    pub closed spec fn body_spec(&self) -> B {
        self.body
    }

    /// The bytes collected so far.
    pub closed spec fn collected(&self) -> Seq<u8> {
        self.buf@
    }

    /// Begins to collect `body`, with room for `content_length` bytes from the start.
    pub fn new_trusted_length(body: B, content_length: usize) -> (drain: DrainBodyFuture<B>)
        requires
            content_length <= isize::MAX,
        ensures
            drain.body_spec() == body,
            drain.collected() == Seq::<u8>::empty(),
    {
        DrainBodyFuture { body, buf: Vec::with_capacity(content_length) }
    }

    /// The body, to be asked for its next frame.
    pub fn body_mut(&mut self) -> (body: &mut B)
        ensures
            *body == old(self).body_spec(),
            final(self).body_spec() == *final(body),
            final(self).collected() == old(self).collected(),
    {
        &mut self.body
    }

    /// Takes in what the body has given.
    pub fn poll(&mut self, frame: FramePoll<'_>) -> (poll: DrainPoll)
        ensures
            final(self).body_spec() == old(self).body_spec(),
            final(self).collected() == drain_step(old(self).collected(), frame).0,
            poll@ == drain_step(old(self).collected(), frame).1,
            match frame {
                FramePoll::Pending => poll is Pending && final(self).collected() == old(
                    self,
                ).collected(),
                FramePoll::Finished => poll matches DrainPoll::Ready(Ok(bytes)) && bytes@ == old(
                    self,
                ).collected(),
                FramePoll::Failed => poll matches DrainPoll::Ready(Err(error)) && error
                    == DrainError::PollFailed,
                FramePoll::NotData => poll matches DrainPoll::Ready(Err(error)) && error
                    == DrainError::NotData,
                FramePoll::Data { chunk, end_stream } => if end_stream {
                    poll matches DrainPoll::Ready(Ok(bytes)) && bytes@ == old(self).collected()
                        + chunk@
                } else {
                    poll is Pending && final(self).collected() == old(self).collected() + chunk@
                },
            },
    {
        match frame {
            FramePoll::Pending => DrainPoll::Pending,
            FramePoll::Finished => DrainPoll::Ready(Ok(self.take_collected())),
            FramePoll::Failed => DrainPoll::Ready(Err(DrainError::PollFailed)),
            FramePoll::NotData => DrainPoll::Ready(Err(DrainError::NotData)),
            FramePoll::Data { chunk, end_stream } => {
                self.buf.extend_from_slice(chunk);
                assert(self.buf@ =~= old(self).buf@ + chunk@);
                if end_stream {
                    DrainPoll::Ready(Ok(self.take_collected()))
                } else {
                    DrainPoll::Pending
                }
            },
        }
    }

    /// Hands out what is collected.
    fn take_collected(&mut self) -> (bytes: Vec<u8>)
        ensures
            bytes@ == old(self).collected(),
            final(self).collected() == Seq::<u8>::empty(),
            final(self).body_spec() == old(self).body_spec(),
    {
        let mut bytes: Vec<u8> = Vec::new();
        std::mem::swap(&mut bytes, &mut self.buf);
        bytes
    }
}

/// The data of frames one after the other.
pub open spec fn data_of(frames: Seq<FramePoll<'_>>) -> Seq<u8>
    decreases frames.len(),
{
    if frames.len() == 0 {
        Seq::empty()
    } else {
        match frames.last() {
            FramePoll::Data { chunk, .. } => data_of(frames.drop_last()) + chunk@,
            _ => data_of(frames.drop_last()),
        }
    }
}

/// What is collected once the frames have been taken in, from nothing on.
pub open spec fn collected_after(frames: Seq<FramePoll<'_>>) -> Seq<u8>
    decreases frames.len(),
{
    if frames.len() == 0 {
        Seq::empty()
    } else {
        drain_step(collected_after(frames.drop_last()), frames.last()).0
    }
}

/// Whether the collection goes on after that frame: there is none yet, or it holds data and
/// is not the last.
pub open spec fn goes_on(frame: FramePoll<'_>) -> bool {
    match frame {
        FramePoll::Pending => true,
        FramePoll::Data { end_stream, .. } => !end_stream,
        _ => false,
    }
}

/// Law: however often a body has nothing yet and however many frames it comes in, none at
/// all among them, the collection goes on until its end and then gives the data of all
/// frames one after the other. The end is a frame that says that it is the last, or that
/// there is no further one.
pub proof fn law_body_comes_out_whole(frames: Seq<FramePoll<'_>>, end: FramePoll<'_>)
    requires
        forall|i: int| 0 <= i < frames.len() ==> goes_on(#[trigger] frames[i]),
        end is Finished || (end matches FramePoll::Data { end_stream, .. } && end_stream),
    ensures
        forall|i: int|
            0 <= i < frames.len() ==> drain_step(
                collected_after(frames.take(i)),
                #[trigger] frames[i],
            ).1 is None,
        drain_step(collected_after(frames), end) == (
            Seq::<u8>::empty(),
            Some(Ok::<Seq<u8>, DrainError>(data_of(frames.push(end)))),
        ),
{
    lemma_data_collected(frames);
    assert(frames.push(end).drop_last() =~= frames);
    assert forall|i: int| 0 <= i < frames.len() implies drain_step(
        collected_after(frames.take(i)),
        #[trigger] frames[i],
    ).1 is None by {
        assert(goes_on(frames[i]));
    }
}

proof fn lemma_data_collected(frames: Seq<FramePoll<'_>>)
    requires
        forall|i: int| 0 <= i < frames.len() ==> goes_on(#[trigger] frames[i]),
    ensures
        collected_after(frames) == data_of(frames),
    decreases frames.len(),
{
    if frames.len() > 0 {
        assert(goes_on(frames[frames.len() - 1]));
        lemma_data_collected(frames.drop_last());
    }
}

/// Law: a failure or a frame without data ends the collection with that error, whatever
/// came before.
pub proof fn law_failure_is_told(collected: Seq<u8>)
    ensures
        drain_step(collected, FramePoll::Failed).1 == Some(
            Err::<Seq<u8>, DrainError>(DrainError::PollFailed),
        ),
        drain_step(collected, FramePoll::NotData).1 == Some(
            Err::<Seq<u8>, DrainError>(DrainError::NotData),
        ),
{
}

/// Law: every byte of a frame is taken in, behind all bytes of the frames before and in
/// order, and no other byte is; the last frame gives them all.
pub proof fn law_frame_is_taken_in_whole(collected: Seq<u8>, chunk: &[u8])
    ensures
        ({
            let more = drain_step(collected, FramePoll::Data { chunk, end_stream: false });
            let last = drain_step(collected, FramePoll::Data { chunk, end_stream: true });
            &&& more.1 is None
            &&& more.0.len() == collected.len() + chunk@.len()
            &&& forall|i: int| 0 <= i < collected.len() ==> #[trigger] more.0[i] == collected[i]
            &&& forall|i: int|
                collected.len() <= i < more.0.len() ==> #[trigger] more.0[i] == chunk@[i
                    - collected.len()]
            &&& last.0.len() == 0
            &&& last.1 == Some(Ok::<Seq<u8>, DrainError>(more.0))
            &&& drain_step(collected, FramePoll::Pending) == (
                collected,
                None::<Result<Seq<u8>, DrainError>>,
            )
            &&& drain_step(collected, FramePoll::Finished).1 == Some(
                Ok::<Seq<u8>, DrainError>(collected),
            )
        }),
{
}

} // verus!
