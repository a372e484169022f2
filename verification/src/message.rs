//! Requests, responses and header fields, as the `http` crate behind `hyper` has them.

use crate::body::body_content;
use bytes::Bytes;
use http_body_util::Full;
use hyper::header::{HeaderMap, HeaderValue, ToStrError};
use hyper::{Request, Response};
use vstd::prelude::*;

verus! {

/// The header fields of a message.
#[verifier::external_type_specification]
#[verifier::external_body]
#[verifier::reject_recursive_types(T)]
pub struct ExHeaderMap<T>(hyper::header::HeaderMap<T>);

/// The value of a header field.
#[verifier::external_type_specification]
#[verifier::external_body]
pub struct ExHeaderValue(hyper::header::HeaderValue);

/// Says that the value of a header field is no text.
#[verifier::external_type_specification]
#[verifier::external_body]
pub struct ExToStrError(hyper::header::ToStrError);

/// A response with a body `T`.
#[verifier::external_type_specification]
#[verifier::external_body]
#[verifier::reject_recursive_types(T)]
pub struct ExResponse<T>(hyper::Response<T>);

/// A request with a body `T`.
#[verifier::external_type_specification]
#[verifier::external_body]
#[verifier::reject_recursive_types(T)]
pub struct ExRequest<T>(hyper::Request<T>);

/// Says why a message could not be put together.
#[verifier::external_type_specification]
#[verifier::external_body]
pub struct ExHttpError(hyper::http::Error);

/// The header fields by their names in lower case; of a field that occurs more than once
/// the first value.
pub uninterp spec fn header_fields(headers: HeaderMap<HeaderValue>) -> Map<Seq<char>, Seq<u8>>;

/// The bytes of a header field's value.
pub uninterp spec fn header_bytes(value: HeaderValue) -> Seq<u8>;

/// The status code of a response.
pub uninterp spec fn response_status(response: Response<Full<Bytes>>) -> u16;

/// The bytes of a response's body.
pub uninterp spec fn response_content(response: Response<Full<Bytes>>) -> Seq<u8>;

/// The header fields of a response by their names in lower case.
pub uninterp spec fn response_fields(response: Response<Full<Bytes>>) -> Map<Seq<char>, Seq<u8>>;

/// The method of a request.
pub uninterp spec fn request_method(request: Request<Full<Bytes>>) -> Seq<char>;

/// The text of a request's target.
pub uninterp spec fn request_uri(request: Request<Full<Bytes>>) -> Seq<char>;

/// The header fields of a request by their names in lower case.
pub uninterp spec fn request_fields(request: Request<Full<Bytes>>) -> Map<Seq<char>, Seq<u8>>;

/// The bytes of a request's body.
pub uninterp spec fn request_content(request: Request<Full<Bytes>>) -> Seq<u8>;

/// The text of the target that `Uri` reads out of a text, or `None` where it is none.
pub uninterp spec fn parsed_uri(text: Seq<char>) -> Option<Seq<char>>;

/// No header field.
pub open spec fn no_fields() -> Map<Seq<char>, Seq<u8>> {
    Map::empty()
}

/// Whether a text is the name of a header field in lower case, of letters and hyphens.
pub open spec fn is_field_name(name: Seq<char>) -> bool {
    &&& 0 < name.len() <= 64
    &&& forall|i: int|
        0 <= i < name.len() ==> 'a' <= #[trigger] name[i] <= 'z' || name[i] == '-'
}

/// Whether a byte stands for itself in the text of a header field: a printing character of
/// ASCII, a space or a tab.
pub open spec fn is_visible(byte: u8) -> bool {
    32 <= byte < 127 || byte == 9
}

/// The text that bytes of ASCII write.
pub open spec fn ascii_text(bytes: Seq<u8>) -> Seq<char> {
    Seq::new(bytes.len(), |i: int| bytes[i] as char)
}

/// The bytes that write a text of ASCII.
pub open spec fn ascii_bytes(text: Seq<char>) -> Seq<u8> {
    Seq::new(text.len(), |i: int| text[i] as u8)
}

/// `HeaderMap::get` gives the first value of the field with that name.
#[verifier::external_body]
pub(crate) fn header_field<'a>(headers: &'a HeaderMap<HeaderValue>, name: &str) -> (value: Option<
    &'a HeaderValue,
>)
    requires
        is_field_name(name@),
    ensures
        match value {
            Some(value) => header_fields(*headers).dom().contains(name@) && header_bytes(*value)
                == header_fields(*headers)[name@],
            None => !header_fields(*headers).dom().contains(name@),
        },
{
    headers.get(name)
}

/// `HeaderValue::to_str` gives the text of a value all of whose bytes are visible ones.
pub assume_specification[ HeaderValue::to_str ](value: &HeaderValue) -> (text: Result<
    &str,
    ToStrError,
>)
    ensures
        match text {
            Ok(text) => (forall|i: int|
                0 <= i < header_bytes(*value).len() ==> is_visible(
                    #[trigger] header_bytes(*value)[i],
                )) && text@ == ascii_text(header_bytes(*value)),
            Err(_) => exists|i: int|
                0 <= i < header_bytes(*value).len() && !is_visible(
                    #[trigger] header_bytes(*value)[i],
                ),
        },
;

/// `Response::builder` makes a response of a status code and a body, without any header
/// field. It makes none of a code outside of three digits.
#[verifier::external_body]
pub(crate) fn build_response(status: u16, body: Full<Bytes>) -> (response: Response<Full<Bytes>>)
    requires
        100 <= status <= 999,
    ensures
        response_status(response) == status,
        response_fields(response) == no_fields(),
        response_content(response) == body_content(body),
{
    Response::builder().status(status).body(body).unwrap()
}

/// The methods that are asked for.
pub open spec fn is_method(method: Seq<char>) -> bool {
    method == "GET"@ || method == "PUT"@ || method == "POST"@
}

/// `Request::builder` makes a request of a method, a target and a body, wherever the
/// target is one.
#[verifier::external_body]
pub(crate) fn build_request(method: &str, uri: &str, body: Full<Bytes>) -> (request: Result<
    Request<Full<Bytes>>,
    hyper::http::Error,
>)
    requires
        is_method(method@),
    ensures
        match request {
            Ok(request) => {
                &&& request_method(request) == method@
                &&& parsed_uri(uri@) == Some(request_uri(request))
                &&& request_fields(request) == no_fields()
                &&& request_content(request) == body_content(body)
            },
            Err(_) => parsed_uri(uri@) is None,
        },
{
    Request::builder().method(method).uri(uri).body(body)
}

/// `Request::builder` with `Builder::header` makes a request with one header field.
#[verifier::external_body]
pub(crate) fn build_request_with_field(
    method: &str,
    uri: &str,
    name: &str,
    value: &str,
    body: Full<Bytes>,
) -> (request: Result<Request<Full<Bytes>>, hyper::http::Error>)
    requires
        is_method(method@),
        is_field_name(name@),
        forall|i: int| 0 <= i < value@.len() ==> ' ' <= #[trigger] value@[i] <= '~',
    ensures
        match request {
            Ok(request) => {
                &&& request_method(request) == method@
                &&& parsed_uri(uri@) == Some(request_uri(request))
                &&& request_fields(request) == no_fields().insert(
                    name@,
                    ascii_bytes(value@),
                )
                &&& request_content(request) == body_content(body)
            },
            Err(_) => parsed_uri(uri@) is None,
        },
{
    Request::builder().method(method).uri(uri).header(name, value).body(body)
}

} // verus!
