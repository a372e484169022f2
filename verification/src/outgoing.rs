//! The sending half of a connection: two buffers, of which one is being written to the
//! stream while the other takes what arrives meanwhile.

use crate::bytes_buffer::{buffer_bytes, copy_at};
use bytes::BytesMut;
use vstd::prelude::*;
use vstd::slice::slice_subrange;

verus! {

/// The part of a buffer that has not been read yet.
#[derive(Copy, Clone, Debug)]
pub struct UnreadRange {
    /// Where it begins.
    pub start: usize,
    /// How many bytes it has.
    pub count: usize,
}

/// What a buffer amounts to: all its bytes, and where among them the pending ones are.
#[verifier::ext_equal]
pub struct BufferModel {
    pub bytes: Seq<u8>,
    pub start: nat,
    pub count: nat,
}

impl BufferModel {
    /// A buffer with those bytes, none of them pending.
    pub open spec fn empty(bytes: Seq<u8>) -> BufferModel {
        BufferModel { bytes, start: 0, count: 0 }
    }

    /// The first position behind the pending bytes.
    pub open spec fn end(self) -> nat {
        self.start + self.count
    }

    /// The pending bytes lie inside the buffer.
    pub open spec fn fits(self) -> bool {
        self.end() <= self.bytes.len()
    }

    /// The pending bytes lie inside the buffer, which is no longer than an allocation can
    /// be.
    pub open spec fn wf(self) -> bool {
        self.fits() && self.bytes.len() <= isize::MAX
    }

    /// The bytes that are still to go out.
    pub open spec fn pending(self) -> Seq<u8> {
        self.bytes.subrange(self.start as int, self.end() as int)
    }

    /// How many of `len` bytes the buffer takes: as many as fit behind the pending ones,
    /// but none at all where only the last position is left.
    pub open spec fn accepted(self, len: nat) -> nat {
        if self.end() < self.bytes.len() - 1 {
            if self.bytes.len() - self.end() <= len {
                (self.bytes.len() - self.end()) as nat
            } else {
                len
            }
        } else {
            0
        }
    }

    /// The buffer once it has taken what it takes of `source`: that stands behind the
    /// pending bytes, and every other byte stays.
    pub open spec fn append(self, source: Seq<u8>) -> BufferModel {
        let n = self.accepted(source.len());
        BufferModel {
            bytes: self.bytes.take(self.end() as int) + source.take(n as int) + self.bytes.skip(
                (self.end() + n) as int,
            ),
            count: self.count + n,
            ..self
        }
    }

    /// The buffer once `written` of its pending bytes have gone out: an emptied buffer
    /// starts over at its first position.
    pub open spec fn consume(self, written: nat) -> BufferModel {
        if self.count <= written {
            BufferModel { start: 0, count: 0, ..self }
        } else {
            BufferModel {
                start: self.start + written,
                count: (self.count - written) as nat,
                ..self
            }
        }
    }

    /// What stays behind of the buffer while its pending bytes are with the stream.
    pub open spec fn around(self) -> PendingModel {
        PendingModel {
            head: self.bytes.take(self.start as int),
            count: self.count,
            tail: self.bytes.skip(self.end() as int),
        }
    }
}

/// A buffer of bytes on their way out.
#[derive(Debug)]
pub struct OutgoingWriteBuffer {
    bytes: BytesMut,
    unread_range: UnreadRange,
}

impl View for OutgoingWriteBuffer {
    type V = BufferModel;

    closed spec fn view(&self) -> BufferModel {
        BufferModel {
            bytes: buffer_bytes(self.bytes),
            start: self.unread_range.start as nat,
            count: self.unread_range.count as nat,
        }
    }
}

impl OutgoingWriteBuffer {
    /// The buffer is sound.
    pub open spec fn wf(&self) -> bool {
        self@.wf()
    }

    /// A buffer that uses the room of `bytes` and has nothing pending.
    pub fn new(bytes: BytesMut) -> (buffer: OutgoingWriteBuffer)
        requires
            buffer_bytes(bytes).len() <= isize::MAX,
        ensures
            buffer.wf(),
            buffer@ == BufferModel::empty(buffer_bytes(bytes)),
    {
        OutgoingWriteBuffer { bytes, unread_range: UnreadRange { start: 0, count: 0 } }
    }

    /// Whether any byte is still to go out.
    pub fn unwritten(&self) -> (pending: bool)
        ensures
            pending == (self@.count > 0),
    {
        self.unread_range.count > 0
    }

    /// How many positions lie behind the pending bytes.
    pub fn avail_space(&self) -> (space: usize)
        requires
            self.wf(),
        ensures
            space == self@.bytes.len() - self@.end(),
    {
        self.bytes.len() - (self.unread_range.start + self.unread_range.count)
    }

    /// The first position behind the pending bytes.
    pub fn space_end(&self) -> (end: usize)
        requires
            self.wf(),
        ensures
            end == self@.end(),
    {
        self.unread_range.start + self.unread_range.count
    }

    /// How many bytes there is room for in all.
    pub fn capacity(&self) -> (capacity: usize)
        ensures
            capacity == self@.bytes.len(),
    {
        self.bytes.len()
    }

    /// Takes as much of `source` as there is room for, and says how much that was.
    pub fn copy_into(&mut self, source: &[u8]) -> (taken: usize)
        requires
            old(self).wf(),
            old(self)@.bytes.len() > 0,
        ensures
            final(self).wf(),
            taken == old(self)@.accepted(source@.len()),
            final(self)@ == old(self)@.append(source@),
            final(self)@.pending() == old(self)@.pending() + source@.take(taken as int),
            taken == 0 ==> final(self)@ == old(self)@,
            ({
                let free = old(self)@.bytes.len() - old(self)@.start - old(self)@.count;
                if free < 2 {
                    taken == 0
                } else {
                    taken == if source@.len() <= free { source@.len() as int } else { free }
                }
            }),
    {
        proof {
            law_append_stays_inside(self@, source@);
        }
        let end: usize = self.space_end();
        if end < self.bytes.len() - 1 {
            let space: usize = self.bytes.len() - end;
            let to_write: usize = if space <= source.len() {
                space
            } else {
                source.len()
            };
            copy_at(&mut self.bytes, end, slice_subrange(source, 0, to_write));
            self.unread_range.count = self.unread_range.count + to_write;
            assert(source@.subrange(0, to_write as int) =~= source@.take(to_write as int));
            to_write
        } else {
            0
        }
    }
}

/// The two buffers of the sending half.
#[verifier::ext_equal]
pub struct OutgoingModel {
    pub writing: Option<BufferModel>,
    pub buffer: BufferModel,
}

impl OutgoingModel {
    /// The pending bytes of each buffer lie inside it.
    pub open spec fn fits(self) -> bool {
        &&& self.writing matches Some(active) ==> active.fits()
        &&& self.buffer.fits()
    }

    /// Both buffers are sound.
    pub open spec fn wf(self) -> bool {
        &&& self.writing matches Some(active) ==> active.wf()
        &&& self.buffer.wf()
    }

    /// Whether the buffer that bytes are taken into has any room to begin with.
    pub open spec fn writable(self) -> bool {
        self.buffer.bytes.len() > 0
    }

    /// Whether bytes are kept out: while some wait behind a buffer that is with the
    /// stream.
    pub open spec fn closed_to_writers(self) -> bool {
        self.buffer.count > 0 && self.writing is None
    }

    /// How many of `len` bytes are taken.
    pub open spec fn accepted(self, len: nat) -> nat {
        if self.closed_to_writers() {
            0
        } else {
            self.buffer.accepted(len)
        }
    }

    /// The buffers once they have taken what they take of `source`: the waiting buffer
    /// takes it, behind what it holds already.
    pub open spec fn write(self, source: Seq<u8>) -> OutgoingModel {
        if self.closed_to_writers() {
            self
        } else {
            OutgoingModel { buffer: self.buffer.append(source), ..self }
        }
    }

    /// The buffers once the stream has handed `returned` back: with bytes left it stays
    /// the one for the stream, and emptied it changes places with the waiting one.
    pub open spec fn merge_back(self, returned: BufferModel) -> OutgoingModel {
        if returned.count > 0 {
            OutgoingModel { writing: Some(returned), ..self }
        } else {
            OutgoingModel { writing: Some(self.buffer), buffer: returned }
        }
    }

    /// The bytes in the two buffers, in the order in which they go to the stream.
    pub open spec fn queued(self) -> Seq<u8> {
        match self.writing {
            Some(active) => active.pending() + self.buffer.pending(),
            None => self.buffer.pending(),
        }
    }
}

/// Two buffers that take turns in front of the stream.
pub struct OutgoingBuffers {
    // Missing while it is being written to the stream.
    writing: Option<OutgoingWriteBuffer>,
    // Always there, but it can be full.
    buffer: OutgoingWriteBuffer,
}

impl View for OutgoingBuffers {
    type V = OutgoingModel;

    closed spec fn view(&self) -> OutgoingModel {
        OutgoingModel {
            writing: match self.writing {
                Some(active) => Some(active@),
                None => None,
            },
            buffer: self.buffer@,
        }
    }
}

impl OutgoingBuffers {
    /// Both buffers are sound.
    pub open spec fn wf(&self) -> bool {
        self@.wf()
    }

    /// Two empty buffers that use the room of `left` and `right`.
    pub fn new(left: BytesMut, right: BytesMut) -> (buffers: OutgoingBuffers)
        requires
            buffer_bytes(left).len() <= isize::MAX,
            buffer_bytes(right).len() <= isize::MAX,
        ensures
            buffers.wf(),
            buffers@ == (OutgoingModel {
                writing: Some(BufferModel::empty(buffer_bytes(left))),
                buffer: BufferModel::empty(buffer_bytes(right)),
            }),
    {
        OutgoingBuffers {
            writing: Some(OutgoingWriteBuffer::new(left)),
            buffer: OutgoingWriteBuffer::new(right),
        }
    }

    /// Takes what there is room for of `write`, behind everything taken before; `None`
    /// where that is nothing.
    pub fn write_into_avail(&mut self, write: &[u8]) -> (taken: Option<usize>)
        requires
            old(self).wf(),
            old(self)@.writable(),
        ensures
            final(self).wf(),
            final(self)@ == old(self)@.write(write@),
            final(self)@.writing == old(self)@.writing,
            match taken {
                Some(n) => {
                    &&& n == old(self)@.accepted(write@.len())
                    &&& n > 0
                    &&& n == write@.len() || n == old(self)@.buffer.bytes.len() - old(
                        self,
                    )@.buffer.start - old(self)@.buffer.count
                    &&& final(self)@.queued() == old(self)@.queued() + write@.take(n as int)
                },
                None => {
                    &&& old(self)@.accepted(write@.len()) == 0
                    &&& final(self)@ == old(self)@
                    &&& write@.len() == 0 || (old(self)@.writing is None && old(
                        self,
                    )@.buffer.count > 0) || old(self)@.buffer.bytes.len() - old(
                        self,
                    )@.buffer.start - old(self)@.buffer.count < 2
                },
            },
    {
        // Bytes that wait behind a write under way stay as they are until it is over.
        if self.buffer.unwritten() && self.writing.is_none() {
            return None;
        }
        // To preserve order, bytes go behind those that wait.
        let written: usize = self.buffer.copy_into(write);
        if written == 0 {
            return None;
        }
        proof {
            law_taken_bytes_are_queued_last(old(self)@, write@);
        }
        Some(written)
    }

    /// Whether the waiting buffer has any room to begin with.
    pub fn is_writable(&self) -> (writable: bool)
        ensures
            writable == self@.writable(),
    {
        self.buffer.capacity() > 0
    }

    /// Whether the buffer for the stream is at hand.
    pub fn is_ready(&self) -> (ready: bool)
        ensures
            ready == (self@.writing is Some),
    {
        self.writing.is_some()
    }

    /// Hands out the buffer for the stream.
    pub fn get_unchecked(&mut self) -> (active: OutgoingWriteBuffer)
        requires
            old(self).wf(),
            old(self)@.writing is Some,
        ensures
            final(self).wf(),
            active.wf(),
            active@ == old(self)@.writing->0,
            final(self)@ == (OutgoingModel { writing: None, ..old(self)@ }),
    {
        self.writing.take().unwrap()
    }

    /// Takes back a buffer that was handed out, and says whether the buffer that is now
    /// the one for the stream has bytes to go out.
    pub fn merge_back(&mut self, prev_writing: OutgoingWriteBuffer) -> (has_rem: bool)
        requires
            old(self).wf(),
            prev_writing.wf(),
        ensures
            final(self).wf(),
            final(self)@ == old(self)@.merge_back(prev_writing@),
            final(self)@.fits(),
            has_rem == (final(self)@.writing->0.count > 0),
            has_rem == (final(self)@.queued().len() > 0),
            !has_rem ==> final(self)@.buffer.count == 0,
    {
        if prev_writing.unwritten() {
            self.writing = Some(prev_writing);
            true
        } else {
            let mut new_writing = prev_writing;
            std::mem::swap(&mut self.buffer, &mut new_writing);
            let has_rem: bool = new_writing.unwritten();
            self.writing = Some(new_writing);
            has_rem
        }
    }
}

/// What stays behind of a buffer while its pending bytes are with the stream: the bytes
/// before and behind them, and how many they are.
#[verifier::ext_equal]
pub struct PendingModel {
    pub head: Seq<u8>,
    pub count: nat,
    pub tail: Seq<u8>,
}

impl PendingModel {
    /// The buffer with `chunk` in the place of the bytes that were with the stream.
    pub open spec fn restore(self, chunk: Seq<u8>) -> BufferModel {
        BufferModel {
            bytes: self.head + chunk + self.tail,
            start: self.head.len(),
            count: self.count,
        }
    }
}

/// The parts of a buffer around the bytes that are with the stream.
pub struct PendingWrite {
    head: BytesMut,
    tail: BytesMut,
    range: UnreadRange,
}

impl View for PendingWrite {
    type V = PendingModel;

    closed spec fn view(&self) -> PendingModel {
        PendingModel {
            head: buffer_bytes(self.head),
            count: self.range.count as nat,
            tail: buffer_bytes(self.tail),
        }
    }
}

/// How a write of a buffer to the stream begins.
pub enum StreamWrite {
    /// There was nothing to write.
    Finished(OutgoingWriteBuffer),
    /// The chunk goes to the stream, and the rest waits for it.
    Submit(PendingWrite, BytesMut),
}

/// Begins to write a buffer to the stream: cuts the pending bytes out of it.
pub fn try_write_to_stream(bytes: OutgoingWriteBuffer) -> (write: StreamWrite)
    requires
        bytes.wf(),
    ensures
        match write {
            StreamWrite::Finished(same) => bytes@.count == 0 && same == bytes,
            StreamWrite::Submit(rest, chunk) => {
                &&& bytes@.count > 0
                &&& rest.wf()
                &&& rest@ == bytes@.around()
                &&& buffer_bytes(chunk) == bytes@.pending()
                &&& rest@.restore(buffer_bytes(chunk)) == bytes@
            },
        },
{
    if !bytes.unwritten() {
        return StreamWrite::Finished(bytes);
    }
    proof {
        law_restored_buffer_is_whole(bytes@);
    }
    let range = bytes.unread_range;
    let mut head = bytes.bytes;
    let mut chunk = head.split_off(range.start);
    let tail = chunk.split_off(range.count);
    assert(buffer_bytes(chunk) =~= bytes@.pending());
    assert(buffer_bytes(tail) =~= bytes@.around().tail);
    StreamWrite::Submit(PendingWrite { head, tail, range }, chunk)
}

impl PendingWrite {
    /// The parts fit together around the bytes that are out.
    pub closed spec fn wf(&self) -> bool {
        &&& self.range.start == self@.head.len()
        &&& self@.head.len() + self@.count + self@.tail.len() <= isize::MAX
    }

    /// Ends a write of which `written` bytes went out: `chunk` goes back to its place.
    pub fn finish(self, chunk: BytesMut, written: usize) -> (buffer: OutgoingWriteBuffer)
        requires
            self.wf(),
            buffer_bytes(chunk).len() == self@.count,
        ensures
            buffer.wf(),
            buffer@ == self@.restore(buffer_bytes(chunk)).consume(written as nat),
    {
        let ghost sent = buffer_bytes(chunk);
        let mut range = self.range;
        let mut chunk = chunk;
        let mut bytes = self.head;
        chunk.unsplit(self.tail);
        bytes.unsplit(chunk);
        assert(buffer_bytes(bytes) =~= self@.restore(sent).bytes);
        let unread_range = if range.count <= written {
            UnreadRange { start: 0, count: 0 }
        } else {
            range.count = range.count - written;
            range.start = range.start + written;
            range
        };
        OutgoingWriteBuffer { bytes, unread_range }
    }
}

/// The sending half over time: what was accepted, what the stream took, the buffer that
/// is with the stream, and the two buffers.
#[verifier::ext_equal]
pub struct LinkModel {
    pub accepted: Seq<u8>,
    pub sent: Seq<u8>,
    pub in_flight: Option<BufferModel>,
    pub out: OutgoingModel,
}

/// One thing that happens to the sending half.
pub enum LinkStep {
    /// `write_into_avail` is called.
    Write(Seq<u8>),
    /// `get_unchecked` hands the buffer for the stream out.
    Launch,
    /// The stream took that many bytes, and `merge_back` takes the buffer back.
    Land(nat),
}

impl LinkModel {
    /// The half as it begins, with two empty buffers.
    pub open spec fn fresh(left: Seq<u8>, right: Seq<u8>) -> LinkModel {
        LinkModel {
            accepted: Seq::empty(),
            sent: Seq::empty(),
            in_flight: None,
            out: OutgoingModel {
                writing: Some(BufferModel::empty(left)),
                buffer: BufferModel::empty(right),
            },
        }
    }

    /// The bytes with the stream.
    pub open spec fn flying(self) -> Seq<u8> {
        match self.in_flight {
            Some(buffer) => buffer.pending(),
            None => Seq::empty(),
        }
    }

    /// The buffer in front of the waiting one: with the stream, or at hand for it.
    pub open spec fn front(self) -> BufferModel {
        match self.in_flight {
            Some(buffer) => buffer,
            None => self.out.writing->0,
        }
    }

    /// Whether the step can be taken.
    pub open spec fn allows(self, step: LinkStep) -> bool {
        match step {
            LinkStep::Write(_) => true,
            LinkStep::Launch => self.in_flight is None && self.out.writing is Some,
            LinkStep::Land(_) => self.in_flight is Some,
        }
    }

    /// The bytes that the step makes accepted ones.
    pub open spec fn taken(self, step: LinkStep) -> Seq<u8> {
        match step {
            LinkStep::Write(source) => source.take(self.out.accepted(source.len()) as int),
            _ => Seq::empty(),
        }
    }

    /// The half after one step.
    pub open spec fn step(self, step: LinkStep) -> LinkModel {
        match step {
            LinkStep::Write(source) => LinkModel {
                accepted: self.accepted + self.taken(step),
                out: self.out.write(source),
                ..self
            },
            LinkStep::Launch => LinkModel {
                in_flight: self.out.writing,
                out: OutgoingModel { writing: None, ..self.out },
                ..self
            },
            LinkStep::Land(written) => LinkModel {
                sent: self.sent + self.flying().take(
                    vstd::math::min(written as int, self.flying().len() as int),
                ),
                in_flight: None,
                out: self.out.merge_back(self.in_flight->0.consume(written)),
                ..self
            },
        }
    }

    /// The half after all steps, one after the other.
    pub open spec fn run(self, steps: Seq<LinkStep>) -> LinkModel
        decreases steps.len(),
    {
        if steps.len() == 0 {
            self
        } else {
            self.run(steps.drop_last()).step(steps.last())
        }
    }

    /// Whether each step can be taken when its turn comes.
    pub open spec fn allows_all(self, steps: Seq<LinkStep>) -> bool
        decreases steps.len(),
    {
        if steps.len() == 0 {
            true
        } else {
            self.allows_all(steps.drop_last()) && self.run(steps.drop_last()).allows(steps.last())
        }
    }

    /// The bytes that have gone out, those with the stream and those queued.
    pub open spec fn all_bytes(self) -> Seq<u8> {
        self.sent + self.flying() + self.out.queued()
    }

    /// One buffer is in front, either with the stream or at hand for it, and the pending
    /// bytes of each lie inside it.
    pub open spec fn sound(self) -> bool {
        &&& self.in_flight is Some <==> self.out.writing is None
        &&& self.front().fits()
        &&& self.out.buffer.fits()
    }

    /// Every accepted byte has gone out, is with the stream or is queued, in that order.
    pub open spec fn in_order(self) -> bool {
        self.sound() && self.accepted == self.all_bytes()
    }
}

/// Law: whatever is written, launched and landed, in whatever order and with whatever
/// partial writes of the stream, the accepted bytes go out in the order of acceptance, and
/// none is lost or goes out twice: what has gone out, what is with the stream and what is
/// queued are the accepted bytes, one after the other.
pub proof fn law_bytes_leave_in_order(left: Seq<u8>, right: Seq<u8>, steps: Seq<LinkStep>)
    requires
        LinkModel::fresh(left, right).allows_all(steps),
    ensures
        LinkModel::fresh(left, right).run(steps).in_order(),
    decreases steps.len(),
{
    let fresh = LinkModel::fresh(left, right);
    if steps.len() == 0 {
        assert(fresh.accepted =~= fresh.all_bytes());
    } else {
        law_bytes_leave_in_order(left, right, steps.drop_last());
        law_step_keeps_order(fresh.run(steps.drop_last()), steps.last());
    }
}

/// Law: no step puts accepted bytes out of order.
pub proof fn law_step_keeps_order(link: LinkModel, step: LinkStep)
    requires
        link.in_order(),
        link.allows(step),
    ensures
        link.step(step).in_order(),
        link.step(step).accepted == link.accepted + link.taken(step),
{
    let next = link.step(step);
    match step {
        LinkStep::Write(source) => {
            law_taken_bytes_are_queued_last(link.out, source);
            law_append_stays_inside(link.out.buffer, source);
            assert(next.all_bytes() =~= link.all_bytes() + link.taken(step));
        },
        LinkStep::Launch => {
            assert(next.all_bytes() =~= link.all_bytes());
        },
        LinkStep::Land(written) => {
            let flown = link.in_flight->0;
            assert(link.flying() =~= link.flying().take(
                vstd::math::min(written as int, link.flying().len() as int),
            ) + flown.consume(written).pending());
            assert(next.out.queued() =~= flown.consume(written).pending() + link.out.queued());
            assert(next.all_bytes() =~= link.all_bytes());
        },
    }
    assert(next.accepted =~= link.accepted + link.taken(step));
}

/// Law: the two buffers keep their lengths, whatever is written, launched and landed, and
/// so one that begins with room always has some for a write, also once a write to the
/// stream has ended.
pub proof fn law_buffers_keep_their_room(left: Seq<u8>, right: Seq<u8>, steps: Seq<LinkStep>)
    requires
        LinkModel::fresh(left, right).allows_all(steps),
    ensures
        ({
            let link = LinkModel::fresh(left, right).run(steps);
            let front = link.front().bytes.len();
            let waiting = link.out.buffer.bytes.len();
            &&& (front == left.len() && waiting == right.len()) || (front == right.len() && waiting
                == left.len())
            &&& left.len() > 0 && right.len() > 0 ==> link.out.writable()
            &&& left.len() > 0 && right.len() > 0 ==> forall|written: nat|
                link.allows(LinkStep::Land(written)) ==> (#[trigger] link.step(
                    LinkStep::Land(written),
                )).out.writable()
        }),
    decreases steps.len(),
{
    if steps.len() > 0 {
        let fresh = LinkModel::fresh(left, right);
        let before = fresh.run(steps.drop_last());
        law_buffers_keep_their_room(left, right, steps.drop_last());
        law_bytes_leave_in_order(left, right, steps.drop_last());
        if let LinkStep::Write(source) = steps.last() {
            law_append_stays_inside(before.out.buffer, source);
        }
    }
}

/// Law: taken bytes are queued behind all others, and what was queued stays queued as it
/// was.
pub proof fn law_taken_bytes_are_queued_last(out: OutgoingModel, source: Seq<u8>)
    requires
        out.buffer.fits(),
    ensures
        out.write(source).queued() == out.queued() + source.take(
            out.accepted(source.len()) as int,
        ),
        out.write(source).writing == out.writing,
        out.accepted(source.len()) <= source.len(),
{
    law_append_stays_inside(out.buffer, source);
    assert(out.write(source).queued() =~= out.queued() + source.take(
        out.accepted(source.len()) as int,
    ));
}

/// Law: no buffer outgrows its room; what it takes goes behind what is pending, and every
/// byte elsewhere in it stays.
pub proof fn law_append_stays_inside(buffer: BufferModel, source: Seq<u8>)
    requires
        buffer.fits(),
    ensures
        ({
            let n = buffer.accepted(source.len());
            let after = buffer.append(source);
            &&& n <= source.len()
            &&& after.fits()
            &&& after.bytes.len() == buffer.bytes.len()
            &&& after.pending() == buffer.pending() + source.take(n as int)
            &&& forall|i: int|
                0 <= i < buffer.bytes.len() && !(buffer.end() <= i < buffer.end() + n)
                    ==> #[trigger] after.bytes[i] == buffer.bytes[i]
            &&& n == 0 ==> after == buffer
        }),
{
    let n = buffer.accepted(source.len());
    let after = buffer.append(source);
    assert(after.pending() =~= buffer.pending() + source.take(n as int));
    if n == 0 {
        assert(after.bytes =~= buffer.bytes);
    }
}

/// Law: a buffer whose pending bytes come back from the stream as they were is whole again.
pub proof fn law_restored_buffer_is_whole(buffer: BufferModel)
    requires
        buffer.fits(),
    ensures
        buffer.around().restore(buffer.pending()) == buffer,
{
    assert(buffer.around().restore(buffer.pending()).bytes =~= buffer.bytes);
}

/// Law: two partial writes leave the buffer as one write of both lengths does.
pub proof fn law_partial_writes_add_up(buffer: BufferModel, first: nat, second: nat)
    ensures
        buffer.consume(first).consume(second) == buffer.consume(first + second),
{
}

/// Law: a buffer with at least two free positions behind its pending bytes takes all that is
/// offered or fills up, whichever is less, and so at least one byte of anything; with fewer
/// free positions it takes nothing.
pub proof fn law_how_much_is_taken(buffer: BufferModel, len: nat)
    requires
        buffer.start + buffer.count <= buffer.bytes.len(),
    ensures
        ({
            let free = buffer.bytes.len() - buffer.start - buffer.count;
            let n = buffer.accepted(len);
            &&& n <= len
            &&& n <= free
            &&& free >= 2 ==> n == len || n == free
            &&& free >= 2 && len > 0 ==> n > 0
            &&& free < 2 ==> n == 0
        }),
{
}

/// Law: a writer is kept out only while bytes wait behind a buffer that is with the stream,
/// or where the waiting buffer has fewer than two free positions; otherwise all that is
/// offered is taken, or as much as there are free positions.
pub proof fn law_writers_are_served(out: OutgoingModel, len: nat)
    requires
        out.buffer.start + out.buffer.count <= out.buffer.bytes.len(),
    ensures
        ({
            let free = out.buffer.bytes.len() - out.buffer.start - out.buffer.count;
            let kept_out = out.writing is None && out.buffer.count > 0;
            let n = out.accepted(len);
            &&& n <= len
            &&& n <= free
            &&& !kept_out && free >= 2 ==> n == len || n == free
            &&& kept_out || free < 2 ==> n == 0
        }),
{
}

/// Law: the pending bytes are those from the start on, as many as are counted.
pub proof fn law_which_bytes_are_pending(buffer: BufferModel)
    requires
        buffer.start + buffer.count <= buffer.bytes.len(),
    ensures
        buffer.pending().len() == buffer.count,
        forall|i: int|
            0 <= i < buffer.count ==> #[trigger] buffer.pending()[i] == buffer.bytes[buffer.start
                + i],
{
}

/// Law: what a buffer takes stands right behind its pending bytes, from the first byte
/// offered on, and no other byte of it changes, nor where the pending bytes begin.
pub proof fn law_where_taken_bytes_stand(buffer: BufferModel, source: Seq<u8>)
    requires
        buffer.start + buffer.count <= buffer.bytes.len(),
    ensures
        ({
            let n = buffer.accepted(source.len());
            let end = buffer.start + buffer.count;
            let after = buffer.append(source);
            &&& after.start == buffer.start
            &&& after.count == buffer.count + n
            &&& after.bytes.len() == buffer.bytes.len()
            &&& forall|i: int|
                0 <= i < buffer.bytes.len() ==> #[trigger] after.bytes[i] == if end <= i < end + n {
                    source[i - end]
                } else {
                    buffer.bytes[i]
                }
        }),
{
}

/// Law: of the bytes that the stream took the first pending ones are gone and no others; no
/// byte of the buffer changes, and one that is emptied takes as much as a fresh one.
pub proof fn law_what_the_stream_took_is_gone(buffer: BufferModel, written: nat, len: nat)
    requires
        buffer.start + buffer.count <= buffer.bytes.len(),
    ensures
        ({
            let after = buffer.consume(written);
            &&& after.bytes == buffer.bytes
            &&& written < buffer.count ==> after.start == buffer.start + written && after.count
                + written == buffer.count
            &&& written >= buffer.count ==> after.count == 0 && after.start == 0
            &&& written >= buffer.count && buffer.bytes.len() >= 2 ==> after.accepted(len) == len
                || after.accepted(len) == buffer.bytes.len()
            &&& written >= buffer.count ==> after.accepted(len) <= len && after.accepted(len)
                <= buffer.bytes.len()
        }),
{
}

/// Law: of the buffer that comes back from the stream and the waiting one, the first stays
/// in front while it has bytes left; then the other comes to the front, and it waits in its
/// place. So where any byte is left, the buffer in front has one.
pub proof fn law_which_buffer_is_in_front(out: OutgoingModel, returned: BufferModel)
    ensures
        ({
            let after = out.merge_back(returned);
            &&& returned.count > 0 ==> after.writing == Some(returned) && after.buffer == out.buffer
            &&& returned.count == 0 ==> after.writing == Some(out.buffer) && after.buffer
                == returned
            &&& after.writing->0.count == 0 ==> after.buffer.count == 0
        }),
{
}

/// Law: what is queued is what is pending in the buffer for the stream, where it is at hand,
/// and behind that what is pending in the waiting one.
pub proof fn law_what_is_queued(out: OutgoingModel)
    requires
        out.buffer.start + out.buffer.count <= out.buffer.bytes.len(),
        out.writing matches Some(active) ==> active.start + active.count <= active.bytes.len(),
    ensures
        ({
            let first = if out.writing is Some {
                out.writing->0.count
            } else {
                0
            };
            &&& out.queued().len() == first + out.buffer.count
            &&& forall|i: int|
                0 <= i < first ==> #[trigger] out.queued()[i]
                    == out.writing->0.bytes[out.writing->0.start + i]
            &&& forall|i: int|
                first <= i < first + out.buffer.count ==> #[trigger] out.queued()[i]
                    == out.buffer.bytes[out.buffer.start + i - first]
        }),
{
}

/// Law: a buffer is put together again with what the stream gave back exactly where its
/// pending bytes were, and as it was everywhere else.
pub proof fn law_chunk_goes_back_to_its_place(buffer: BufferModel, chunk: Seq<u8>)
    requires
        buffer.start + buffer.count <= buffer.bytes.len(),
        chunk.len() == buffer.count,
    ensures
        ({
            let restored = buffer.around().restore(chunk);
            &&& restored.start == buffer.start
            &&& restored.count == buffer.count
            &&& restored.bytes.len() == buffer.bytes.len()
            &&& forall|i: int|
                0 <= i < buffer.bytes.len() ==> #[trigger] restored.bytes[i] == if buffer.start <= i
                    < buffer.start + buffer.count {
                    chunk[i - buffer.start]
                } else {
                    buffer.bytes[i]
                }
        }),
{
}

} // verus!
