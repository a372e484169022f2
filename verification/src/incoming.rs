//! The receiving half of a connection: one buffer that the stream fills and a reader
//! empties.

use crate::bytes_buffer::{buffer_bytes, buffer_slice};
use crate::outgoing::UnreadRange;
use crate::read_cursor::{cursor_capacity, cursor_filled};
use bytes::BytesMut;
use tokio::io::ReadBuf;
use vstd::prelude::*;
use vstd::slice::slice_subrange;

verus! {

/// What a receiving buffer amounts to: its bytes, and the stretch of them that no reader
/// has had. A stretch of no bytes is the end of the stream.
#[verifier::ext_equal]
pub struct BufferedModel {
    pub bytes: Seq<u8>,
    pub unread_range: Option<UnreadRange>,
}

impl BufferedModel {
    /// The stretch lies inside the buffer.
    pub open spec fn wf(self) -> bool {
        &&& self.bytes.len() <= usize::MAX
        &&& self.unread_range matches Some(range) ==> range.start + range.count <= self.bytes.len()
    }

    /// The bytes that no reader has had, where there is such a stretch.
    pub open spec fn unread(self) -> Option<Seq<u8>> {
        match self.unread_range {
            Some(range) => Some(
                self.bytes.subrange(range.start as int, range.start + range.count),
            ),
            None => None,
        }
    }

    /// The buffer once a reader with that much room has been served.
    pub open spec fn served(self, room: nat) -> BufferedModel {
        match self.unread_range {
            Some(range) if range.count > room => BufferedModel {
                unread_range: Some(
                    UnreadRange {
                        start: (range.start + room) as usize,
                        count: (range.count - room) as usize,
                    },
                ),
                ..self
            },
            _ => BufferedModel { unread_range: None, ..self },
        }
    }

    /// The bytes that a reader with that much room is served.
    pub open spec fn serving(self, room: nat) -> Seq<u8> {
        match self.unread() {
            Some(unread) => unread.take(vstd::math::min(unread.len() as int, room as int)),
            None => Seq::empty(),
        }
    }
}

/// A buffer of received bytes.
pub struct BufferedBytesMut {
    bytes: BytesMut,
    unread_range: Option<UnreadRange>,
}

impl View for BufferedBytesMut {
    type V = BufferedModel;

    closed spec fn view(&self) -> BufferedModel {
        BufferedModel { bytes: buffer_bytes(self.bytes), unread_range: self.unread_range }
    }
}

impl BufferedBytesMut {
    /// A buffer that uses the room of `bytes` and has nothing for a reader.
    pub fn new(bytes: BytesMut) -> (buffered: BufferedBytesMut)
        ensures
            buffered@.wf(),
            buffered@ == (BufferedModel { bytes: buffer_bytes(bytes), unread_range: None }),
    {
        // A buffer is no longer than a `usize` can say.
        let _ = bytes.len();
        BufferedBytesMut { bytes, unread_range: None }
    }
}

/// Begins to fill a buffer from the stream: parts the room from what was unread in it.
pub fn uring_read_into(bytes: BufferedBytesMut) -> (parts: (BytesMut, Option<UnreadRange>))
    ensures
        buffer_bytes(parts.0) == bytes@.bytes,
        parts.1 == bytes@.unread_range,
{
    (bytes.bytes, bytes.unread_range)
}

/// Ends a read from the stream that put `written` bytes into `bytes`.
pub fn finish_read(bytes: BytesMut, range: Option<UnreadRange>, written: usize) -> (buffered:
    BufferedBytesMut)
    requires
        match range {
            Some(range) => range.start + range.count + written <= buffer_bytes(bytes).len(),
            None => written <= buffer_bytes(bytes).len(),
        },
    ensures
        buffered@.wf(),
        buffered@ == (BufferedModel {
            bytes: buffer_bytes(bytes),
            unread_range: Some(
                match range {
                    Some(range) => UnreadRange {
                        start: range.start,
                        count: (range.count + written) as usize,
                    },
                    None => UnreadRange { start: 0, count: written },
                },
            ),
        }),
{
    // A buffer is no longer than a `usize` can say.
    let _ = bytes.len();
    let unread_range = if let Some(mut range) = range {
        range.count = range.count + written;
        range
    } else {
        UnreadRange { start: 0, count: written }
    };
    BufferedBytesMut { bytes, unread_range: Some(unread_range) }
}

/// Serves a reader: moves as many unread bytes into `buf` as it has room for. `false`
/// where the buffer has nothing for a reader, not even the end of the stream.
pub fn try_write_into_cursor(
    buffered_bytes_mut: &mut BufferedBytesMut,
    buf: &mut ReadBuf<'_>,
) -> (served: bool)
    requires
        old(buffered_bytes_mut)@.wf(),
    ensures
        final(buffered_bytes_mut)@.wf(),
        served == (old(buffered_bytes_mut)@.unread_range is Some),
        ({
            let room = (cursor_capacity(*old(buf)) - cursor_filled(*old(buf)).len()) as nat;
            &&& final(buffered_bytes_mut)@ == old(buffered_bytes_mut)@.served(room)
            &&& cursor_filled(*final(buf)) == cursor_filled(*old(buf)) + old(
                buffered_bytes_mut,
            )@.serving(room)
        }),
        cursor_capacity(*final(buf)) == cursor_capacity(*old(buf)),
        final(buffered_bytes_mut)@.bytes == old(buffered_bytes_mut)@.bytes,
        match old(buffered_bytes_mut)@.unread_range {
            Some(range) => {
                let room = cursor_capacity(*old(buf)) - cursor_filled(*old(buf)).len();
                let moved = if range.count <= room { range.count as int } else { room };
                &&& cursor_filled(*final(buf)) == cursor_filled(*old(buf)) + old(
                    buffered_bytes_mut,
                )@.bytes.subrange(range.start as int, range.start + moved)
                &&& final(buffered_bytes_mut)@.unread_range is Some <==> range.count > room
            },
            None => {
                &&& cursor_filled(*final(buf)) == cursor_filled(*old(buf))
                &&& final(buffered_bytes_mut)@.unread_range is None
            },
        },
{
    if let Some(mut rng) = buffered_bytes_mut.unread_range {
        let len: usize = buf.remaining();
        let write_up_to: usize = if rng.count <= len {
            rng.count
        } else {
            len
        };
        let chunk: &[u8] = slice_subrange(
            buffer_slice(&buffered_bytes_mut.bytes),
            rng.start,
            rng.start + write_up_to,
        );
        assert(chunk@ =~= buffered_bytes_mut@.serving(len as nat));
        buf.put_slice(chunk);
        if rng.count > write_up_to {
            rng.count = rng.count - write_up_to;
            rng.start = rng.start + write_up_to;
            buffered_bytes_mut.unread_range = Some(rng);
        } else {
            buffered_bytes_mut.unread_range = None;
        }
        return true;
    }
    assert(cursor_filled(*buf) =~= cursor_filled(*buf) + Seq::<u8>::empty());
    false
}

/// Law: served bytes and the ones still unread are what was unread before, in order.
pub proof fn law_serving_loses_nothing(buffered: BufferedModel, room: nat)
    requires
        buffered.wf(),
        buffered.unread() is Some,
    ensures
        buffered.unread()->0 == buffered.serving(room) + match buffered.served(room).unread() {
            Some(rest) => rest,
            None => Seq::empty(),
        },
        buffered.served(room).unread() is Some ==> buffered.serving(room).len() == room,
{
    let range = buffered.unread_range->0;
    let unread = buffered.unread()->0;
    if range.count > room {
        assert(unread =~= buffered.serving(room) + buffered.served(room).unread()->0);
    } else {
        assert(unread =~= buffered.serving(room) + Seq::<u8>::empty());
    }
}

/// The receiving half over time: what came from the stream, what readers were served,
/// and the buffer.
#[verifier::ext_equal]
pub struct InboxModel {
    pub received: Seq<u8>,
    pub delivered: Seq<u8>,
    pub buffered: BufferedModel,
}

/// One thing that happens to the receiving half.
pub enum InboxStep {
    /// A read from the stream ends: the buffer then holds those bytes, and that many of
    /// them, from the first on, are new.
    Fill(Seq<u8>, usize),
    /// A reader with that much room is served.
    Serve(nat),
}

impl InboxModel {
    /// The half as it begins.
    pub open spec fn fresh(bytes: Seq<u8>) -> InboxModel {
        InboxModel {
            received: Seq::empty(),
            delivered: Seq::empty(),
            buffered: BufferedModel { bytes, unread_range: None },
        }
    }

    /// Whether the step can be taken: the stream is read only into a buffer that has
    /// nothing for a reader.
    pub open spec fn allows(self, step: InboxStep) -> bool {
        match step {
            InboxStep::Fill(bytes, written) => {
                &&& self.buffered.unread_range is None
                &&& written <= bytes.len() <= usize::MAX
            },
            InboxStep::Serve(_) => true,
        }
    }

    /// The half after one step.
    pub open spec fn step(self, step: InboxStep) -> InboxModel {
        match step {
            InboxStep::Fill(bytes, written) => InboxModel {
                received: self.received + bytes.take(written as int),
                buffered: BufferedModel {
                    bytes,
                    unread_range: Some(UnreadRange { start: 0, count: written }),
                },
                ..self
            },
            InboxStep::Serve(room) => InboxModel {
                delivered: self.delivered + self.buffered.serving(room),
                buffered: self.buffered.served(room),
                ..self
            },
        }
    }

    /// The half after all steps, one after the other.
    pub open spec fn run(self, steps: Seq<InboxStep>) -> InboxModel
        decreases steps.len(),
    {
        if steps.len() == 0 {
            self
        } else {
            self.run(steps.drop_last()).step(steps.last())
        }
    }

    /// Whether each step can be taken when its turn comes.
    pub open spec fn allows_all(self, steps: Seq<InboxStep>) -> bool
        decreases steps.len(),
    {
        if steps.len() == 0 {
            true
        } else {
            self.allows_all(steps.drop_last()) && self.run(steps.drop_last()).allows(steps.last())
        }
    }

    /// Every received byte has been served or is unread, in that order.
    pub open spec fn in_order(self) -> bool {
        &&& self.buffered.wf()
        &&& self.received == self.delivered + match self.buffered.unread() {
            Some(unread) => unread,
            None => Seq::empty(),
        }
    }
}

/// Law: however the stream fills the buffer and whatever room the readers have, the
/// readers are served the bytes of the stream in order, each of them once.
pub proof fn law_bytes_arrive_in_order(bytes: Seq<u8>, steps: Seq<InboxStep>)
    requires
        bytes.len() <= usize::MAX,
        InboxModel::fresh(bytes).allows_all(steps),
    ensures
        InboxModel::fresh(bytes).run(steps).in_order(),
    decreases steps.len(),
{
    let fresh = InboxModel::fresh(bytes);
    if steps.len() == 0 {
        assert(fresh.received =~= fresh.delivered + Seq::<u8>::empty());
    } else {
        law_bytes_arrive_in_order(bytes, steps.drop_last());
        let before = fresh.run(steps.drop_last());
        let after = before.step(steps.last());
        match steps.last() {
            InboxStep::Fill(bytes, written) => {
                assert(after.buffered.unread()->0 =~= bytes.take(written as int));
                assert(after.received =~= after.delivered + after.buffered.unread()->0);
            },
            InboxStep::Serve(room) => {
                if before.buffered.unread() is Some {
                    law_serving_loses_nothing(before.buffered, room);
                }
                match after.buffered.unread() {
                    Some(unread) => assert(after.received =~= after.delivered + unread),
                    None => assert(after.received =~= after.delivered + Seq::<u8>::empty()),
                }
            },
        }
    }
}

/// Law: a reader is served the first unread bytes, all of them or as many as there is room
/// for. Where some are left they are the ones behind those, at least one; where none is
/// left there is nothing more for a reader, and so the end of the stream is never told
/// because a reader had just enough room.
pub proof fn law_what_a_reader_is_served(buffered: BufferedModel, room: nat)
    requires
        buffered.unread_range matches Some(range) ==> range.start + range.count
            <= buffered.bytes.len() <= usize::MAX,
    ensures
        buffered.served(room).bytes == buffered.bytes,
        match buffered.unread_range {
            Some(range) => {
                let served = buffered.serving(room);
                &&& served.len() <= range.count
                &&& served.len() <= room
                &&& served.len() == range.count || served.len() == room
                &&& forall|i: int|
                    0 <= i < served.len() ==> #[trigger] served[i] == buffered.bytes[range.start
                        + i]
                &&& match buffered.served(room).unread_range {
                    Some(rest) => {
                        &&& rest.count > 0
                        &&& rest.start == range.start + served.len()
                        &&& rest.start + rest.count == range.start + range.count
                    },
                    None => served.len() == range.count,
                }
            },
            None => buffered.serving(room).len() == 0 && buffered.served(room) == buffered,
        },
{
}

} // verus!
