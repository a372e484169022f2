//! `tokio::io::ReadBuf` as the reading side of a connection fills it.

use tokio::io::ReadBuf;
use vstd::prelude::*;

verus! {

/// The destination of an asynchronous read in `tokio`.
#[verifier::external_type_specification]
#[verifier::external_body]
pub struct ExReadBuf<'a>(tokio::io::ReadBuf<'a>);

/// The bytes of the filled part of a `ReadBuf`.
pub uninterp spec fn cursor_filled(cursor: ReadBuf<'_>) -> Seq<u8>;

/// How many bytes a `ReadBuf` can be filled with in all.
pub uninterp spec fn cursor_capacity(cursor: ReadBuf<'_>) -> nat;

/// `ReadBuf::remaining` is the room behind the filled part.
pub assume_specification<'a>[ ReadBuf::<'a>::remaining ](cursor: &ReadBuf<'a>) -> (room: usize)
    ensures
        room + cursor_filled(*cursor).len() == cursor_capacity(*cursor),
;

/// `ReadBuf::put_slice` appends to the filled part. It panics where the room is too small.
pub assume_specification<'a>[ ReadBuf::<'a>::put_slice ](cursor: &mut ReadBuf<'a>, bytes: &[u8])
    requires
        cursor_filled(*old(cursor)).len() + bytes@.len() <= cursor_capacity(*old(cursor)),
    ensures
        cursor_filled(*final(cursor)) == cursor_filled(*old(cursor)) + bytes@,
        cursor_capacity(*final(cursor)) == cursor_capacity(*old(cursor)),
;

} // verus!
