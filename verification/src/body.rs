//! Bodies of requests and responses.

use bytes::Bytes;
use http_body_util::Full;
use vstd::prelude::*;

verus! {

/// The immutable byte string of the `bytes` crate.
#[verifier::external_type_specification]
#[verifier::external_body]
pub struct ExBytes(bytes::Bytes);

/// A body of one chunk, from the `http-body-util` crate.
#[verifier::external_type_specification]
#[verifier::external_body]
#[verifier::reject_recursive_types(D)]
pub struct ExFull<D>(http_body_util::Full<D>);

/// The bytes that a `Bytes` holds.
pub uninterp spec fn bytes_content(bytes: Bytes) -> Seq<u8>;

/// The bytes that a body has still to give.
pub uninterp spec fn body_content(body: Full<Bytes>) -> Seq<u8>;

/// `Bytes::new` holds nothing.
pub assume_specification[ Bytes::new ]() -> (bytes: Bytes)
    ensures
        bytes_content(bytes) == Seq::<u8>::empty(),
;

/// `Bytes` made of a vector hold what the vector held.
pub assume_specification[ <Bytes as From<Vec<u8>>>::from ](vec: Vec<u8>) -> (bytes: Bytes)
    ensures
        bytes_content(bytes) == vec@,
;

/// `Full::new` gives a body that holds the bytes given.
#[verifier::external_body]
fn full_body(bytes: Bytes) -> (body: Full<Bytes>)
    ensures
        body_content(body) == bytes_content(bytes),
{
    Full::new(bytes)
}

/// A body without any byte.
pub fn empty_body() -> (body: Full<Bytes>)
    ensures
        body_content(body) == Seq::<u8>::empty(),
{
    full_body(Bytes::new())
}

/// A body that holds `bytes`.
pub fn byte_body<B: Into<Bytes>>(bytes: B) -> (body: Full<Bytes>)
    ensures
        exists|data: Bytes| #[trigger]
            call_ensures(<B as Into<Bytes>>::into, (bytes,), data) && body_content(body) == bytes_content(
                data,
            ),
{
    full_body(bytes.into())
}

} // verus!
