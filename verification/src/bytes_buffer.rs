//! `bytes::BytesMut` as the buffers of a connection use it.

use bytes::BytesMut;
use vstd::prelude::*;

verus! {

/// The growable byte buffer of the `bytes` crate.
#[verifier::external_type_specification]
#[verifier::external_body]
pub struct ExBytesMut(bytes::BytesMut);

/// The bytes that a `BytesMut` holds: those between its start and its length.
pub uninterp spec fn buffer_bytes(buffer: BytesMut) -> Seq<u8>;

/// `BytesMut::zeroed` gives a buffer of `len` zero bytes. It panics on a length that no
/// allocation can have.
pub assume_specification[ BytesMut::zeroed ](len: usize) -> (buffer: BytesMut)
    requires
        len <= isize::MAX,
    ensures
        buffer_bytes(buffer) == Seq::new(len as nat, |i: int| 0u8),
;

/// `BytesMut::len` is the number of bytes held.
pub assume_specification[ BytesMut::len ](buffer: &BytesMut) -> (len: usize)
    ensures
        len == buffer_bytes(*buffer).len(),
;

/// `BytesMut::split_off` keeps the first `at` bytes and hands out the ones behind them.
pub assume_specification[ BytesMut::split_off ](buffer: &mut BytesMut, at: usize) -> (tail: BytesMut)
    requires
        at <= buffer_bytes(*old(buffer)).len(),
    ensures
        buffer_bytes(*final(buffer)) == buffer_bytes(*old(buffer)).take(at as int),
        buffer_bytes(tail) == buffer_bytes(*old(buffer)).skip(at as int),
;

/// `BytesMut::unsplit` puts the bytes of `other` behind those of the buffer.
pub assume_specification[ BytesMut::unsplit ](buffer: &mut BytesMut, other: BytesMut)
    requires
        buffer_bytes(*old(buffer)).len() + buffer_bytes(other).len() <= isize::MAX,
    ensures
        buffer_bytes(*final(buffer)) == buffer_bytes(*old(buffer)) + buffer_bytes(other),
;

/// `AsRef::as_ref` on a `BytesMut` is the slice of the bytes held.
#[verifier::external_body]
pub(crate) fn buffer_slice(buffer: &BytesMut) -> (slice: &[u8])
    ensures
        slice@ == buffer_bytes(*buffer),
{
    buffer.as_ref()
}

/// `AsMut::as_mut` on a `BytesMut` is the slice of the bytes held: what is written
/// through it is what the buffer holds afterwards.
#[verifier::external_body]
pub(crate) fn buffer_slice_mut(buffer: &mut BytesMut) -> (slice: &mut [u8])
    ensures
        slice@ == buffer_bytes(*old(buffer)),
        buffer_bytes(*final(buffer)) == final(slice)@,
{
    buffer.as_mut()
}

/// Writes `source` over the bytes of `buffer` from `at` on.
pub(crate) fn copy_at(buffer: &mut BytesMut, at: usize, source: &[u8])
    requires
        at + source@.len() <= buffer_bytes(*old(buffer)).len(),
    ensures
        buffer_bytes(*final(buffer)) == buffer_bytes(*old(buffer)).take(at as int) + source@
            + buffer_bytes(*old(buffer)).skip(at + source@.len()),
{
    let ghost before = buffer_bytes(*buffer);
    let slice = buffer_slice_mut(buffer);
    let total: usize = slice.len();
    let mut i: usize = 0;
    while i < source.len()
        invariant
            i <= source@.len(),
            at + source@.len() <= before.len() == total,
            slice@ == before.take(at as int) + source@.take(i as int) + before.skip(at + i),
        decreases source@.len() - i,
    {
        slice[at + i] = source[i];
        i = i + 1;
    }
}

} // verus!
