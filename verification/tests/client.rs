use http_cmp::client::content_length;
use http_cmp::text::{bytes_eq, parse_usize, str_eq};
use hyper::header::{HeaderMap, HeaderValue, CONTENT_LENGTH, CONTENT_TYPE};

fn with_length(value: &[u8]) -> HeaderMap {
    let mut headers = HeaderMap::new();
    headers.insert(CONTENT_LENGTH, HeaderValue::from_bytes(value).unwrap());
    headers
}

#[test]
fn told_length_is_read() {
    assert_eq!(content_length(&with_length(b"37")), 37);
    assert_eq!(content_length(&with_length(b"0")), 0);
    assert_eq!(content_length(&with_length(b"+12")), 12);
}

#[test]
fn first_of_two_lengths_is_read() {
    let mut headers = with_length(b"5");
    headers.append(CONTENT_LENGTH, HeaderValue::from_static("6"));
    headers.insert(CONTENT_TYPE, HeaderValue::from_static("7"));
    assert_eq!(content_length(&headers), 5);
}

#[test]
fn length_defaults() {
    assert_eq!(content_length(&HeaderMap::new()), 1024);
    let mut headers = HeaderMap::new();
    headers.insert(CONTENT_TYPE, HeaderValue::from_static("7"));
    assert_eq!(content_length(&headers), 1024);
    assert_eq!(content_length(&with_length(b"")), 1024);
    assert_eq!(content_length(&with_length(b" 7")), 1024);
    assert_eq!(content_length(&with_length(b"-7")), 1024);
    assert_eq!(content_length(&with_length(b"7a")), 1024);
    assert_eq!(content_length(&with_length(b"\xff7")), 1024);
    assert_eq!(
        content_length(&with_length(b"99999999999999999999999999")),
        1024
    );
}

#[test]
fn numbers_are_read_as_the_standard_library_reads_them() {
    for text in [
        "0",
        "1",
        "007",
        "1024",
        "+5",
        "+",
        "",
        "++5",
        "5+",
        "-1",
        "1 ",
        " 1",
        "1_000",
        "18446744073709551615",
        "18446744073709551616",
        "18446744073709551614",
        "184467440737095516150",
        "\u{661}",
        "1\u{e9}",
    ] {
        assert_eq!(parse_usize(text), text.parse::<usize>().ok());
    }
}

#[test]
fn texts_are_compared() {
    assert!(str_eq("/count", "/count"));
    assert!(!str_eq("/count", "/counts"));
    assert!(!str_eq("/count", "/Count"));
    assert!(str_eq("", ""));
    assert!(str_eq("\u{e9}", "\u{e9}"));
    assert!(bytes_eq(b"ab", b"ab"));
    assert!(!bytes_eq(b"ab", b"ac"));
    assert!(!bytes_eq(b"ab", b"a"));
}
