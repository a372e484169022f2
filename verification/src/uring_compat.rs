//! A connection over a stream that takes and gives whole buffers, as `tokio`'s readers
//! and writers see it. What is decided between two operations on the stream is decided
//! here; whoever holds the connection performs the operations and hands their outcome in.

use crate::incoming::{
    try_write_into_cursor, BufferedBytesMut, BufferedModel, InboxModel, InboxStep,
};
use crate::outgoing::{
    law_append_stays_inside, law_step_keeps_order, law_taken_bytes_are_queued_last, BufferModel,
    LinkModel, LinkStep, OutgoingBuffers, OutgoingModel, OutgoingWriteBuffer, UnreadRange,
};
use crate::read_cursor::{cursor_capacity, cursor_filled};
use bytes::BytesMut;
use std::rc::Rc;
use tokio::io::ReadBuf;
use vstd::prelude::*;
use vstd::slice::slice_subrange;
use vstd::string::StringExecFns;

verus! {

/// Names the executor of the single-threaded runtime that a connection runs on.
#[derive(Copy, Clone)]
pub struct TokioUringExecutor;

/// What a connection amounts to: the sending half and whether one of its buffers is with
/// the stream, the receiving half and whether its buffer is.
#[verifier::ext_equal]
pub struct UringModel {
    pub out: OutgoingModel,
    pub sending: bool,
    pub inbox: Option<BufferedModel>,
    pub receiving: bool,
}

impl UringModel {
    /// Every buffer at hand is sound, and while a buffer is with the stream for writing
    /// none is at hand in its place.
    pub open spec fn wf(self) -> bool {
        &&& self.out.wf()
        &&& self.sending ==> self.out.writing is None
        &&& self.inbox matches Some(inbox) ==> inbox.wf()
    }

    /// Whether a write to the stream is under way or can be started.
    pub open spec fn can_send(self) -> bool {
        self.sending || self.out.writing is Some
    }

    /// Whether the receiving buffer is either at hand or with the stream.
    pub open spec fn can_receive(self) -> bool {
        self.receiving != (self.inbox is Some)
    }

    /// Whether the receiving half is as `inbox` has it: at hand, or with the stream, which
    /// has it only while there is nothing in it for a reader.
    pub open spec fn receives_as(self, inbox: InboxModel) -> bool {
        match self.inbox {
            Some(buffered) => !self.receiving && buffered == inbox.buffered,
            None => self.receiving && inbox.buffered.unread_range is None,
        }
    }

    /// Whether the sending half is as `link` has it.
    pub open spec fn sends_as(self, link: LinkModel) -> bool {
        self.out == link.out && self.sending == (link.in_flight is Some)
    }
}

/// A connection over a stream `S`.
pub struct UringTcp<S> {
    inner_tcp: Rc<S>,
    read_buf: OutgoingBuffers,
    sending: bool,
    write_buf: Option<BufferedBytesMut>,
    receiving: bool,
}

impl<S> View for UringTcp<S> {
    type V = UringModel;

    closed spec fn view(&self) -> UringModel {
        UringModel {
            out: self.read_buf@,
            sending: self.sending,
            inbox: match self.write_buf {
                Some(buffered) => Some(buffered@),
                None => None,
            },
            receiving: self.receiving,
        }
    }
}

/// How a buffer fared that was handed to the stream for writing.
pub enum WriteOutcome {
    /// The stream gave it back.
    Ready(OutgoingWriteBuffer),
    /// The stream failed, and the buffer is gone.
    Failed,
    /// The stream still has it.
    Pending,
}

/// Which write to the stream is to be waited for.
pub enum OutgoingNext {
    /// The one that is under way.
    Resume,
    /// A new one, of this buffer.
    Start(OutgoingWriteBuffer),
}

/// What became of a write to the stream.
pub enum OutgoingPoll {
    /// It ended; whether the next buffer has bytes to go out.
    Ready(bool),
    /// It failed.
    Failed,
    /// It is still under way.
    Pending,
}

/// How a writer goes on.
pub enum WriteStep {
    /// Another write to the stream is waited for; so many bytes are accepted by now.
    Continue(usize),
    /// The writer is told that so many bytes were accepted.
    Ready(usize),
    /// The writer is told of the failure.
    Failed,
    /// The writer waits.
    Pending,
}

/// How a flush goes on.
pub enum FlushStep {
    /// Another write to the stream is waited for.
    Continue,
    /// Nothing is left to go out.
    Ready,
    /// The failure is told.
    Failed,
    /// The flush waits.
    Pending,
}

/// How a buffer fared that was handed to the stream for reading.
pub enum ReadOutcome {
    /// The stream gave it back.
    Ready(BufferedBytesMut),
    /// The stream failed, and the buffer is gone.
    Failed,
    /// The stream still has it.
    Pending,
}

/// What a reader needs of the stream.
pub enum ReadNext {
    /// Nothing: the reader has been served.
    Ready,
    /// A new read into this buffer.
    Start(BufferedBytesMut),
    /// The read that is under way.
    Resume,
    /// There is no telling: the buffer is there and a read is under way, or neither.
    Busy {
        /// Whether the buffer is there.
        buf_present: bool,
        /// Whether a read is under way.
        fut_present: bool,
    },
}

/// How a reader goes on.
pub enum ReadPoll {
    /// It has been served.
    Ready,
    /// It is told of the failure.
    Failed,
    /// It waits.
    Pending,
}

/// What a flag reads as.
pub open spec fn flag_text(flag: bool) -> Seq<char> {
    if flag {
        "true"@
    } else {
        "false"@
    }
}

/// What a reader is told where there is no telling what it needs of the stream.
pub fn busy_message(buf_present: bool, fut_present: bool) -> (message: String)
    ensures
        message@ == "async read is busy - buf present="@ + flag_text(buf_present)
            + ", fut present="@ + flag_text(fut_present),
        message@ == "async read is busy - buf present="@ + (if buf_present {
            "true"@
        } else {
            "false"@
        }) + ", fut present="@ + (if fut_present {
            "true"@
        } else {
            "false"@
        }),
{
    let mut message: String = "async read is busy - buf present=".to_owned();
    message.append(flag_name(buf_present));
    message.append(", fut present=");
    message.append(flag_name(fut_present));
    message
}

/// What a flag reads as.
fn flag_name(flag: bool) -> (name: &'static str)
    ensures
        name@ == flag_text(flag),
{
    if flag {
        "true"
    } else {
        "false"
    }
}

impl<S> UringTcp<S> {
    /// The connection is sound.
    pub open spec fn wf(&self) -> bool {
        self@.wf()
    }

    /// The stream.
    pub closed spec fn stream_spec(&self) -> S {
        *self.inner_tcp
    }

    /// A connection over `inner_tcp` with buffers of `buf_size` bytes.
    pub fn new(inner_tcp: S, buf_size: usize) -> (tcp: UringTcp<S>)
        requires
            buf_size <= isize::MAX,
        ensures
            tcp.wf(),
            tcp.stream_spec() == inner_tcp,
            tcp@.can_send(),
            tcp@.can_receive(),
            ({
                let zeros = Seq::new(buf_size as nat, |i: int| 0u8);
                tcp@ == UringModel {
                    out: OutgoingModel {
                        writing: Some(BufferModel::empty(zeros)),
                        buffer: BufferModel::empty(zeros),
                    },
                    sending: false,
                    inbox: Some(BufferedModel { bytes: zeros, unread_range: None }),
                    receiving: false,
                }
            }),
    {
        UringTcp {
            inner_tcp: Rc::new(inner_tcp),
            read_buf: OutgoingBuffers::new(BytesMut::zeroed(buf_size), BytesMut::zeroed(buf_size)),
            sending: false,
            write_buf: Some(BufferedBytesMut::new(BytesMut::zeroed(buf_size))),
            receiving: false,
        }
    }

    /// The stream, to be shared with an operation on it.
    pub fn stream(&self) -> (stream: Rc<S>)
        ensures
            *stream == self.stream_spec(),
    {
        self.inner_tcp.clone()
    }

    /// Whether a write to the stream is under way or can be started. It is not once the
    /// stream has failed.
    pub fn can_send(&self) -> (can: bool)
        ensures
            can == self@.can_send(),
            can == (self@.sending || self@.out.writing is Some),
    {
        self.sending || self.read_buf.is_ready()
    }

    /// Whether a writer can be served at all: the buffers have room to begin with.
    pub fn is_writable(&self) -> (writable: bool)
        ensures
            writable == self@.out.writable(),
    {
        self.read_buf.is_writable()
    }

    /// Picks the write to the stream that is waited for next.
    pub fn next_outgoing(&mut self) -> (next: OutgoingNext)
        requires
            old(self).wf(),
            old(self)@.can_send(),
        ensures
            final(self).wf(),
            final(self).stream_spec() == old(self).stream_spec(),
            final(self)@.can_send(),
            match next {
                OutgoingNext::Resume => old(self)@.sending && final(self)@ == old(self)@,
                OutgoingNext::Start(buffer) => {
                    &&& !old(self)@.sending
                    &&& buffer.wf()
                    &&& buffer@ == old(self)@.out.writing->0
                    &&& final(self)@ == UringModel {
                        out: OutgoingModel { writing: None, ..old(self)@.out },
                        sending: true,
                        ..old(self)@
                    }
                },
            },
    {
        if self.sending {
            OutgoingNext::Resume
        } else {
            self.sending = true;
            OutgoingNext::Start(self.read_buf.get_unchecked())
        }
    }

    /// Takes in what became of the write to the stream that is under way.
    pub fn poll_outgoing(&mut self, outcome: WriteOutcome) -> (poll: OutgoingPoll)
        requires
            old(self).wf(),
            old(self)@.sending,
            outcome matches WriteOutcome::Ready(buffered) ==> buffered.wf(),
        ensures
            final(self).wf(),
            final(self).stream_spec() == old(self).stream_spec(),
            !(outcome is Failed) ==> final(self)@.can_send(),
            match outcome {
                WriteOutcome::Ready(buffered) => {
                    &&& final(self)@ == UringModel {
                        out: old(self)@.out.merge_back(buffered@),
                        sending: false,
                        ..old(self)@
                    }
                    &&& final(self)@.out.fits()
                    &&& poll == OutgoingPoll::Ready(final(self)@.out.queued().len() > 0)
                    &&& poll == OutgoingPoll::Ready(final(self)@.out.writing->0.count > 0)
                },
                WriteOutcome::Failed => {
                    &&& final(self)@ == UringModel { sending: false, ..old(self)@ }
                    &&& poll == OutgoingPoll::Failed
                },
                WriteOutcome::Pending => {
                    &&& final(self)@ == old(self)@
                    &&& poll == OutgoingPoll::Pending
                },
            },
    {
        match outcome {
            WriteOutcome::Ready(buffered) => {
                self.sending = false;
                OutgoingPoll::Ready(self.read_buf.merge_back(buffered))
            },
            WriteOutcome::Failed => {
                self.sending = false;
                OutgoingPoll::Failed
            },
            WriteOutcome::Pending => OutgoingPoll::Pending,
        }
    }

    /// Begins to serve a writer: takes what there is room for of `buf` and says how much.
    pub fn poll_write(&mut self, buf: &[u8]) -> (accepted: usize)
        requires
            old(self).wf(),
            old(self)@.out.writable(),
        ensures
            final(self).wf(),
            final(self).stream_spec() == old(self).stream_spec(),
            accepted == old(self)@.out.accepted(buf@.len()),
            accepted <= buf@.len(),
            old(self)@.can_send() ==> final(self)@.can_send(),
            final(self)@ == (UringModel { out: old(self)@.out.write(buf@), ..old(self)@ }),
            final(self)@.out.queued() == old(self)@.out.queued() + buf@.take(accepted as int),
            ({
                let waiting = old(self)@.out.buffer;
                let free = waiting.bytes.len() - waiting.start - waiting.count;
                if free < 2 || (waiting.count > 0 && old(self)@.out.writing is None) {
                    accepted == 0
                } else {
                    accepted == if buf@.len() <= free { buf@.len() as int } else { free }
                }
            }),
    {
        match self.read_buf.write_into_avail(buf) {
            Some(written) => written,
            None => {
                assert(buf@.take(0) =~= Seq::empty());
                0
            },
        }
    }

    /// Goes on with a writer of which `accepted` bytes are accepted, after the write to
    /// the stream that it waited for.
    pub fn poll_write_step(
        &mut self,
        buf: &[u8],
        accepted: usize,
        outcome: WriteOutcome,
    ) -> (step: WriteStep)
        requires
            old(self).wf(),
            old(self)@.sending,
            accepted <= buf@.len(),
            outcome matches WriteOutcome::Ready(buffered) ==> buffered.wf() && old(
                self,
            )@.out.merge_back(buffered@).writable(),
        ensures
            final(self).wf(),
            final(self).stream_spec() == old(self).stream_spec(),
            !(outcome is Failed) ==> final(self)@.can_send(),
            match outcome {
                WriteOutcome::Ready(buffered) => {
                    let rest = buf@.skip(accepted as int);
                    let merged = old(self)@.out.merge_back(buffered@);
                    &&& step == WriteStep::Continue(
                        (accepted + merged.accepted(rest.len())) as usize,
                    )
                    &&& accepted + merged.accepted(rest.len()) <= buf@.len()
                    &&& final(self)@.out.queued() == merged.queued() + rest.take(
                        merged.accepted(rest.len()) as int,
                    )
                    &&& final(self)@ == UringModel {
                        out: merged.write(rest),
                        sending: false,
                        ..old(self)@
                    }
                },
                WriteOutcome::Failed => {
                    &&& step == WriteStep::Failed
                    &&& final(self)@ == UringModel { sending: false, ..old(self)@ }
                },
                WriteOutcome::Pending => {
                    &&& step == if accepted > 0 {
                        WriteStep::Ready(accepted)
                    } else {
                        WriteStep::Pending
                    }
                    &&& final(self)@ == old(self)@
                },
            },
    {
        match self.poll_outgoing(outcome) {
            OutgoingPoll::Ready(_has_rem) => {
                let rest: &[u8] = slice_subrange(buf, accepted, buf.len());
                assert(rest@ =~= buf@.skip(accepted as int));
                WriteStep::Continue(accepted + self.poll_write(rest))
            },
            OutgoingPoll::Failed => WriteStep::Failed,
            OutgoingPoll::Pending => if accepted > 0 {
                WriteStep::Ready(accepted)
            } else {
                WriteStep::Pending
            },
        }
    }

    /// Goes on with a flush after the write to the stream that it waited for.
    pub fn poll_flush(&mut self, outcome: WriteOutcome) -> (step: FlushStep)
        requires
            old(self).wf(),
            old(self)@.sending,
            outcome matches WriteOutcome::Ready(buffered) ==> buffered.wf(),
        ensures
            final(self).wf(),
            final(self).stream_spec() == old(self).stream_spec(),
            !(outcome is Failed) ==> final(self)@.can_send(),
            match outcome {
                WriteOutcome::Ready(buffered) => {
                    let merged = old(self)@.out.merge_back(buffered@);
                    &&& step == if merged.queued().len() > 0 {
                        FlushStep::Continue
                    } else {
                        FlushStep::Ready
                    }
                    &&& final(self)@ == UringModel { out: merged, sending: false, ..old(self)@ }
                    &&& final(self)@.out.fits()
                    &&& step is Ready <==> final(self)@.out.writing->0.count == 0
                    &&& step is Ready ==> final(self)@.out.buffer.count == 0
                },
                WriteOutcome::Failed => {
                    &&& step == FlushStep::Failed
                    &&& final(self)@ == UringModel { sending: false, ..old(self)@ }
                },
                WriteOutcome::Pending => {
                    &&& step == FlushStep::Pending
                    &&& final(self)@ == old(self)@
                },
            },
    {
        match self.poll_outgoing(outcome) {
            OutgoingPoll::Ready(has_rem) => if has_rem {
                FlushStep::Continue
            } else {
                FlushStep::Ready
            },
            OutgoingPoll::Failed => FlushStep::Failed,
            OutgoingPoll::Pending => FlushStep::Pending,
        }
    }

    /// Begins to serve a reader: from the buffer where that has anything, and else by way
    /// of the stream.
    pub fn poll_read(&mut self, buf: &mut ReadBuf<'_>) -> (next: ReadNext)
        requires
            old(self).wf(),
        ensures
            final(self).wf(),
            final(self).stream_spec() == old(self).stream_spec(),
            cursor_capacity(*final(buf)) == cursor_capacity(*old(buf)),
            old(self)@.can_receive() ==> final(self)@.can_receive() && !(next is Busy),
            match (old(self)@.inbox, old(self)@.receiving) {
                (Some(inbox), false) => if inbox.unread_range is Some {
                    let room = (cursor_capacity(*old(buf)) - cursor_filled(
                        *old(buf),
                    ).len()) as nat;
                    &&& next == ReadNext::Ready
                    &&& final(self)@ == UringModel {
                        inbox: Some(inbox.served(room)),
                        ..old(self)@
                    }
                    &&& cursor_filled(*final(buf)) == cursor_filled(*old(buf)) + inbox.serving(
                        room,
                    )
                } else {
                    &&& next matches ReadNext::Start(buffered) && buffered@ == inbox
                    &&& final(self)@ == UringModel {
                        inbox: None,
                        receiving: true,
                        ..old(self)@
                    }
                    &&& cursor_filled(*final(buf)) == cursor_filled(*old(buf))
                },
                (None, true) => {
                    &&& next == ReadNext::Resume
                    &&& final(self)@ == old(self)@
                    &&& cursor_filled(*final(buf)) == cursor_filled(*old(buf))
                },
                (inbox, receiving) => {
                    &&& next == ReadNext::Busy {
                        buf_present: inbox is Some,
                        fut_present: receiving,
                    }
                    &&& final(self)@ == old(self)@
                    &&& cursor_filled(*final(buf)) == cursor_filled(*old(buf))
                },
            },
    {
        if self.receiving {
            return if self.write_buf.is_some() {
                ReadNext::Busy { buf_present: true, fut_present: true }
            } else {
                ReadNext::Resume
            };
        }
        match self.write_buf.take() {
            Some(buffered) => {
                let mut buffered = buffered;
                if try_write_into_cursor(&mut buffered, buf) {
                    self.write_buf = Some(buffered);
                    ReadNext::Ready
                } else {
                    self.receiving = true;
                    ReadNext::Start(buffered)
                }
            },
            None => ReadNext::Busy { buf_present: false, fut_present: false },
        }
    }

    /// Goes on with a reader after the read from the stream that it waited for.
    pub fn poll_read_step(&mut self, outcome: ReadOutcome, buf: &mut ReadBuf<'_>) -> (poll: ReadPoll)
        requires
            old(self).wf(),
            old(self)@.receiving,
            outcome matches ReadOutcome::Ready(buffered) ==> buffered@.wf(),
        ensures
            final(self).wf(),
            final(self).stream_spec() == old(self).stream_spec(),
            cursor_capacity(*final(buf)) == cursor_capacity(*old(buf)),
            old(self)@.can_receive() && !(outcome is Failed) ==> final(self)@.can_receive(),
            match outcome {
                ReadOutcome::Ready(buffered) => {
                    let room = (cursor_capacity(*old(buf)) - cursor_filled(
                        *old(buf),
                    ).len()) as nat;
                    &&& poll == ReadPoll::Ready
                    &&& final(self)@ == UringModel {
                        inbox: Some(buffered@.served(room)),
                        receiving: false,
                        ..old(self)@
                    }
                    &&& cursor_filled(*final(buf)) == cursor_filled(*old(buf))
                        + buffered@.serving(room)
                },
                ReadOutcome::Failed => {
                    &&& poll == ReadPoll::Failed
                    &&& final(self)@ == UringModel { receiving: false, ..old(self)@ }
                    &&& cursor_filled(*final(buf)) == cursor_filled(*old(buf))
                },
                ReadOutcome::Pending => {
                    &&& poll == ReadPoll::Pending
                    &&& final(self)@ == old(self)@
                    &&& cursor_filled(*final(buf)) == cursor_filled(*old(buf))
                },
            },
    {
        match outcome {
            ReadOutcome::Ready(buffered) => {
                let mut buffered = buffered;
                self.receiving = false;
                try_write_into_cursor(&mut buffered, buf);
                self.write_buf = Some(buffered);
                ReadPoll::Ready
            },
            ReadOutcome::Failed => {
                self.receiving = false;
                ReadPoll::Failed
            },
            ReadOutcome::Pending => ReadPoll::Pending,
        }
    }

    /// Writers are served one slice at a time.
    pub fn is_write_vectored(&self) -> (vectored: bool)
        ensures
            !vectored,
    {
        false
    }
}

/// A call of a writer on a connection, together with what the stream took in its course:
/// every write to the stream that ended during the call, and how many bytes it took. The
/// call is over once a write to the stream is still under way.
pub enum WriterCall {
    /// Bytes are offered.
    Write(Seq<u8>, Seq<nat>),
    /// What is queued is to go out; the call is over at once where nothing is left.
    Flush(Seq<nat>),
}

impl LinkModel {
    /// The half with a write to the stream under way: the one that is, or a new one. This
    /// is what [`UringTcp::next_outgoing`] does.
    pub open spec fn launched(self) -> LinkModel {
        if self.in_flight is Some {
            self
        } else {
            self.step(LinkStep::Launch)
        }
    }

    /// A call that offers `buf` from where `accepted` bytes of it are accepted: the half
    /// when it is over, and how many bytes are accepted by then. Every write to the stream
    /// that ends is what [`UringTcp::poll_write_step`] goes on from.
    pub open spec fn write_on(self, buf: Seq<u8>, accepted: nat, took: Seq<nat>) -> (LinkModel, nat)
        decreases took.len(),
    {
        if took.len() == 0 {
            (self.launched(), accepted)
        } else {
            let landed = self.launched().step(LinkStep::Land(took[0]));
            let rest = buf.skip(accepted as int);
            landed.step(LinkStep::Write(rest)).write_on(
                buf,
                accepted + landed.out.accepted(rest.len()),
                took.skip(1),
            )
        }
    }

    /// A call that flushes: the half when it is over. Every write to the stream that ends
    /// is what [`UringTcp::poll_flush`] goes on from.
    pub open spec fn flush_on(self, took: Seq<nat>) -> LinkModel
        decreases took.len(),
    {
        if took.len() == 0 {
            self.launched()
        } else {
            let landed = self.launched().step(LinkStep::Land(took[0]));
            if landed.out.queued().len() == 0 {
                landed
            } else {
                landed.flush_on(took.skip(1))
            }
        }
    }

    /// The half after a call, and the bytes that the call told its caller were accepted.
    pub open spec fn call(self, call: WriterCall) -> (LinkModel, Seq<u8>) {
        match call {
            WriterCall::Write(buf, took) => {
                let (link, n) = self.step(LinkStep::Write(buf)).write_on(
                    buf,
                    self.out.accepted(buf.len()),
                    took,
                );
                (link, buf.take(n as int))
            },
            WriterCall::Flush(took) => (self.flush_on(took), Seq::empty()),
        }
    }

    /// The half after all calls, and all bytes that the callers were told were accepted.
    pub open spec fn calls(self, calls: Seq<WriterCall>) -> (LinkModel, Seq<u8>)
        decreases calls.len(),
    {
        if calls.len() == 0 {
            (self, Seq::empty())
        } else {
            let before = self.calls(calls.drop_last());
            let last = before.0.call(calls.last());
            (last.0, before.1 + last.1)
        }
    }
}

/// Law: a connection does to its sending half what [`LinkModel::step`] says: a write is a
/// write, a write to the stream that starts is a launch, and one that ended is a landing.
pub proof fn law_connection_follows_link(
    tcp: UringModel,
    link: LinkModel,
    buf: Seq<u8>,
    written: nat,
)
    requires
        tcp.sends_as(link),
    ensures
        (UringModel { out: tcp.out.write(buf), ..tcp }).sends_as(link.step(LinkStep::Write(buf))),
        !tcp.sending && tcp.can_send() ==> (UringModel {
            out: OutgoingModel { writing: None, ..tcp.out },
            sending: true,
            ..tcp
        }).sends_as(link.step(LinkStep::Launch)),
        tcp.sending ==> (UringModel {
            out: tcp.out.merge_back(link.in_flight->0.consume(written)),
            sending: false,
            ..tcp
        }).sends_as(link.step(LinkStep::Land(written))),
{
}

/// Law: a connection does to its receiving half what [`InboxModel::step`] says: a reader who
/// is served from the buffer is one served, the stream is given the buffer only where it can
/// be filled, and a read from the stream that ended with `count` bytes in `bytes` fills it
/// and serves the reader at once. A reader's room is filled with what is delivered.
pub proof fn law_connection_follows_inbox(
    tcp: UringModel,
    inbox: InboxModel,
    room: nat,
    bytes: Seq<u8>,
    count: usize,
)
    requires
        tcp.receives_as(inbox),
        count <= bytes.len() <= usize::MAX,
    ensures
        tcp.inbox is Some && tcp.inbox->0.unread_range is Some ==> ({
            let buffered = tcp.inbox->0;
            let served = inbox.step(InboxStep::Serve(room));
            &&& inbox.allows(InboxStep::Serve(room))
            &&& (UringModel { inbox: Some(buffered.served(room)), ..tcp }).receives_as(served)
            &&& served.delivered == inbox.delivered + buffered.serving(room)
        }),
        tcp.inbox is Some && tcp.inbox->0.unread_range is None ==> (UringModel {
            inbox: None,
            receiving: true,
            ..tcp
        }).receives_as(inbox),
        tcp.receiving ==> ({
            let filled = BufferedModel {
                bytes,
                unread_range: Some(UnreadRange { start: 0, count }),
            };
            let served = inbox.step(InboxStep::Fill(bytes, count)).step(InboxStep::Serve(room));
            &&& inbox.allows(InboxStep::Fill(bytes, count))
            &&& (UringModel {
                inbox: Some(filled.served(room)),
                receiving: false,
                ..tcp
            }).receives_as(served)
            &&& served.received == inbox.received + bytes.take(count as int)
            &&& served.delivered == inbox.delivered + filled.serving(room)
        }),
{
}

/// Law: whatever writers write and flush and whatever the stream takes at a time, the
/// bytes that writers were told were accepted are those that have gone out, those with the
/// stream and those queued, one after the other: nothing is lost, repeated or out of order.
pub proof fn law_told_bytes_leave_in_order(
    left: Seq<u8>,
    right: Seq<u8>,
    calls: Seq<WriterCall>,
)
    ensures
        ({
            let (link, told) = LinkModel::fresh(left, right).calls(calls);
            link.in_order() && link.accepted == told && told == link.all_bytes()
        }),
    decreases calls.len(),
{
    let fresh = LinkModel::fresh(left, right);
    if calls.len() == 0 {
        assert(fresh.accepted =~= fresh.all_bytes());
    } else {
        law_told_bytes_leave_in_order(left, right, calls.drop_last());
        let (before, told) = fresh.calls(calls.drop_last());
        match calls.last() {
            WriterCall::Write(buf, took) => {
                let n = before.out.accepted(buf.len());
                let offered = before.step(LinkStep::Write(buf));
                law_step_keeps_order(before, LinkStep::Write(buf));
                law_taken_bytes_are_queued_last(before.out, buf);
                lemma_write_on(offered, buf, n, took);
                let (link, total) = offered.write_on(buf, n, took);
                assert(buf.take(n as int) + buf.subrange(n as int, total as int) =~= buf.take(
                    total as int,
                ));
                assert(link.accepted =~= told + buf.take(total as int));
            },
            WriterCall::Flush(took) => {
                lemma_flush_on(before, took);
                assert(told + Seq::<u8>::empty() =~= told);
            },
        }
    }
}

proof fn lemma_launched(link: LinkModel)
    requires
        link.in_order(),
    ensures
        link.launched().in_order(),
        link.launched().in_flight is Some,
        link.launched().accepted == link.accepted,
{
    if link.in_flight is None {
        law_step_keeps_order(link, LinkStep::Launch);
    }
}

proof fn lemma_landed(link: LinkModel, written: nat)
    requires
        link.in_order(),
    ensures
        link.launched().step(LinkStep::Land(written)).in_order(),
        link.launched().step(LinkStep::Land(written)).accepted == link.accepted,
{
    lemma_launched(link);
    law_step_keeps_order(link.launched(), LinkStep::Land(written));
}

proof fn lemma_written_after_landing(link: LinkModel, written: nat, rest: Seq<u8>)
    requires
        link.in_order(),
    ensures
        ({
            let landed = link.launched().step(LinkStep::Land(written));
            let more = landed.out.accepted(rest.len());
            let next = landed.step(LinkStep::Write(rest));
            &&& next.in_order()
            &&& more <= rest.len()
            &&& next.accepted == link.accepted + rest.take(more as int)
        }),
{
    let landed = link.launched().step(LinkStep::Land(written));
    lemma_landed(link, written);
    law_step_keeps_order(landed, LinkStep::Write(rest));
    law_taken_bytes_are_queued_last(landed.out, rest);
}

#[verifier::spinoff_prover]
#[verifier::rlimit(30)]
proof fn lemma_write_on(link: LinkModel, buf: Seq<u8>, accepted: nat, took: Seq<nat>)
    requires
        link.in_order(),
        accepted <= buf.len(),
    ensures
        ({
            let (after, total) = link.write_on(buf, accepted, took);
            &&& after.in_order()
            &&& after.in_flight is Some
            &&& accepted <= total <= buf.len()
            &&& after.accepted == link.accepted + buf.subrange(accepted as int, total as int)
        }),
    decreases took.len(),
{
    if took.len() == 0 {
        lemma_launched(link);
        assert(link.accepted =~= link.accepted + buf.subrange(accepted as int, accepted as int));
    } else {
        let rest = buf.skip(accepted as int);
        let landed = link.launched().step(LinkStep::Land(took[0]));
        let more = landed.out.accepted(rest.len());
        let next = landed.step(LinkStep::Write(rest));
        lemma_written_after_landing(link, took[0], rest);
        lemma_write_on(next, buf, accepted + more, took.skip(1));
        let (after, total) = next.write_on(buf, accepted + more, took.skip(1));
        assert(link.write_on(buf, accepted, took) == (after, total));
        assert(rest.take(more as int) + buf.subrange((accepted + more) as int, total as int)
            =~= buf.subrange(accepted as int, total as int));
        assert(after.accepted =~= link.accepted + (rest.take(more as int) + buf.subrange(
            (accepted + more) as int,
            total as int,
        )));
    }
}

proof fn lemma_flush_on(link: LinkModel, took: Seq<nat>)
    requires
        link.in_order(),
    ensures
        link.flush_on(took).in_order(),
        link.flush_on(took).accepted == link.accepted,
    decreases took.len(),
{
    lemma_launched(link);
    if took.len() > 0 {
        let landed = link.launched().step(LinkStep::Land(took[0]));
        lemma_landed(link, took[0]);
        if landed.out.queued().len() > 0 {
            lemma_flush_on(landed, took.skip(1));
        }
    }
}

/// Law: a fresh connection with buffers of two bytes or more accepts all of the first write,
/// or as much as one buffer holds; and once all of that has gone out it accepts as much
/// again.
pub proof fn law_fresh_connection_accepts(left: Seq<u8>, right: Seq<u8>, buf: Seq<u8>, len: nat)
    requires
        left.len() == right.len() >= 2,
    ensures
        ({
            let fresh = LinkModel::fresh(left, right);
            let n = fresh.out.accepted(buf.len());
            let empty = fresh.step(LinkStep::Write(buf)).step(LinkStep::Launch).step(
                LinkStep::Land(0),
            ).step(LinkStep::Launch).step(LinkStep::Land(n));
            &&& n <= buf.len() && n <= right.len()
            &&& n == buf.len() || n == right.len()
            &&& empty.sent == buf.take(n as int)
            &&& empty.out.accepted(len) <= len && empty.out.accepted(len) <= right.len()
            &&& empty.out.accepted(len) == len || empty.out.accepted(len) == right.len()
        }),
{
    let fresh = LinkModel::fresh(left, right);
    let n = fresh.out.accepted(buf.len());
    let written = fresh.step(LinkStep::Write(buf));
    law_append_stays_inside(fresh.out.buffer, buf);
    assert(fresh.out.buffer.pending() =~= Seq::empty());
    assert(written.out.buffer.pending() =~= buf.take(n as int));
    let front = written.step(LinkStep::Launch).step(LinkStep::Land(0));
    assert(front.sent =~= Seq::empty());
    let gone = front.step(LinkStep::Launch).step(LinkStep::Land(n));
    assert(gone.sent =~= buf.take(n as int));
}

} // verus!
