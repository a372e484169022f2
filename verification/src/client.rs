//! What a client reads out of a response before it collects the body.

use crate::message::{ascii_text, header_field, header_fields, is_field_name, is_visible};
use crate::text::{parse_usize, usize_of};
use hyper::header::{HeaderMap, HeaderValue};
use vstd::prelude::*;

verus! {

/// The length that is taken for granted where a response tells none.
pub const DEFAULT_CONTENT_LENGTH: usize = 1024;

/// The length that the bytes of a header field's value write, where they are text and
/// the text is a number.
pub open spec fn length_in(value: Seq<u8>) -> Option<usize> {
    if forall|i: int| 0 <= i < value.len() ==> is_visible(#[trigger] value[i]) {
        usize_of(ascii_text(value))
    } else {
        None
    }
}

/// The length that header fields tell of the body.
pub open spec fn told_length(fields: Map<Seq<char>, Seq<u8>>) -> usize {
    if fields.dom().contains("content-length"@) {
        match length_in(fields["content-length"@]) {
            Some(length) => length,
            None => DEFAULT_CONTENT_LENGTH,
        }
    } else {
        DEFAULT_CONTENT_LENGTH
    }
}

/// The length that the header fields of a response tell of its body, or a default where
/// they tell none.
pub fn content_length(headers: &HeaderMap<HeaderValue>) -> (length: usize)
    ensures
        length == told_length(header_fields(*headers)),
{
    let name: &str = "content-length";
    proof {
        reveal_strlit("content-length");
        assert(is_field_name(name@));
    }
    match header_field(headers, name) {
        None => DEFAULT_CONTENT_LENGTH,
        Some(value) => match value.to_str() {
            Err(_) => DEFAULT_CONTENT_LENGTH,
            Ok(text) => match parse_usize(text) {
                None => DEFAULT_CONTENT_LENGTH,
                Some(length) => length,
            },
        },
    }
}

/// Law: the length is the number that the value of the field writes, whatever number that
/// is. Where the field is not there, holds a byte that stands for no character of text, or
/// writes no number, the length is the default.
pub proof fn law_which_length_is_told(fields: Map<Seq<char>, Seq<u8>>, text: Seq<char>)
    ensures
        !fields.dom().contains("content-length"@) ==> told_length(fields) == 1024,
        fields.dom().contains("content-length"@) && (exists|i: int|
            0 <= i < fields["content-length"@].len() && {
                let byte = #[trigger] fields["content-length"@][i];
                byte < 32 && byte != 9 || byte > 126
            }) ==> told_length(fields) == 1024,
        fields.dom().contains("content-length"@) && text.len() == fields["content-length"@].len()
            && (forall|i: int|
            0 <= i < text.len() ==> {
                let byte = #[trigger] fields["content-length"@][i];
                text[i] as int == byte as int && (32 <= byte <= 126 || byte == 9)
            }) ==> told_length(fields) == match usize_of(text) {
            Some(length) => length,
            None => 1024,
        },
{
    let value = fields["content-length"@];
    if text.len() == value.len() && forall|i: int|
        0 <= i < text.len() ==> text[i] as int == #[trigger] value[i] as int {
        assert forall|i: int| 0 <= i < text.len() implies ascii_text(value)[i] == #[trigger] text[i] by {
            assert(text[i] as int == value[i] as int);
        }
        assert(ascii_text(value) =~= text);
    }
}

} // verus!
