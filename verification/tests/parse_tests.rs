//! Leaf parser behaviour: line terminators, tags, headers, exact-length
//! reads and decimal numbers.

use seredies::de::parse::{read_header, TaggedHeader};
use seredies::parse::{parse_number, read_endline, read_exact, read_tag, Error, Tag};

#[test]
fn endline_basic() {
    let ((), rest) = read_endline(b"\r\nabc").expect("failed to parse");
    assert_eq!(rest, b"abc");
}

#[test]
fn endline_missing() {
    assert_eq!(read_endline(b""), Err(Error::UnexpectedEof(2)));
}

#[test]
fn endline_partial_missing() {
    assert_eq!(read_endline(b"\r"), Err(Error::UnexpectedEof(1)));
}

#[test]
fn endline_malformed() {
    assert_eq!(read_endline(b"\n\r"), Err(Error::MalformedNewline));
    assert_eq!(read_endline(b"\r\r"), Err(Error::MalformedNewline));
    assert_eq!(read_endline(b"abc"), Err(Error::MalformedNewline));
}

#[test]
fn tag_line() {
    let ((tag, payload), rest) = read_tag(b":123\r\nabc").expect("failed to parse");
    assert!(matches!(tag, Tag::Integer));
    assert_eq!(payload, b"123");
    assert_eq!(rest, b"abc");
}

#[test]
fn tag_rejects_unknown_byte() {
    assert_eq!(read_tag(b"xABC\r\n"), Err(Error::BadTag(b'x')));
}

#[test]
fn header_simple_string() {
    let (header, rest) = read_header(b"+OK\r\nabc").expect("failed to parse");
    assert!(matches!(header, TaggedHeader::SimpleString(b"OK")));
    assert_eq!(rest, b"abc");
}

#[test]
fn header_error() {
    let (header, rest) = read_header(b"-CODE message\r\nabc").expect("failed to parse");
    assert!(matches!(header, TaggedHeader::Error(b"CODE message")));
    assert_eq!(rest, b"abc");
}

#[test]
fn header_number() {
    let (header, rest) = read_header(b":123\r\nabc").expect("failed to parse");
    assert!(matches!(header, TaggedHeader::Integer(123)));
    assert_eq!(rest, b"abc");
}

#[test]
fn header_negative_number() {
    let (header, _) = read_header(b":-123\r\nabc").expect("failed to parse");
    assert!(matches!(header, TaggedHeader::Integer(-123)));
}

#[test]
fn header_bulk_string() {
    let (header, rest) = read_header(b"$3\r\nabc\r\n").expect("failed to parse");
    assert!(matches!(header, TaggedHeader::BulkString(3)));
    assert_eq!(rest, b"abc\r\n");
}

#[test]
fn header_null() {
    let (header, rest) = read_header(b"$-1\r\nabc\r\n").expect("failed to parse");
    assert!(matches!(header, TaggedHeader::Null));
    assert_eq!(rest, b"abc\r\n");
}

#[test]
fn header_array() {
    let (header, rest) = read_header(b"*1\r\n+OK\r\n").expect("failed to parse");
    assert!(matches!(header, TaggedHeader::Array(1)));
    assert_eq!(rest, b"+OK\r\n");
}

#[test]
fn header_null_array() {
    let (header, _) = read_header(b"*-1\r\nabc\r\n").expect("failed to parse");
    assert!(matches!(header, TaggedHeader::Null));
}

#[test]
fn header_bad_tag() {
    assert!(matches!(read_header(b"xABC\r\n"), Err(Error::BadTag(b'x'))));
}

#[test]
fn header_incomplete() {
    assert_eq!(
        read_header(b"+OK\r").map(|_| ()),
        Err(Error::UnexpectedEof(1))
    );
    assert_eq!(read_header(b"").map(|_| ()), Err(Error::UnexpectedEof(3)));
    assert_eq!(
        read_header(b"+OK").map(|_| ()),
        Err(Error::UnexpectedEof(2))
    );
}

#[test]
fn exact_basic() {
    let (payload, rest) = read_exact(4, b"abcd\r\n123").expect("failed to parse");
    assert_eq!(payload, b"abcd");
    assert_eq!(rest, b"123");
}

#[test]
fn exact_incomplete() {
    assert_eq!(
        read_exact(10, b"abc").map(|_| ()),
        Err(Error::UnexpectedEof(9))
    );
}

#[test]
fn exact_incomplete_newline() {
    assert_eq!(
        read_exact(4, b"abcd").map(|_| ()),
        Err(Error::UnexpectedEof(2))
    );
}

#[test]
fn exact_malformed() {
    assert_eq!(
        read_exact(4, b"abcdef\r\n").map(|_| ()),
        Err(Error::MalformedNewline)
    );
}

#[test]
fn number_basic() {
    assert_eq!(parse_number(b"123"), Ok(123));
    assert_eq!(parse_number(b"+42"), Ok(42));
    assert_eq!(parse_number(b"-1"), Ok(-1));
    assert_eq!(parse_number(b"-001"), Ok(-1));
    assert_eq!(parse_number(b"0"), Ok(0));
}

#[test]
fn number_extremes() {
    assert_eq!(
        parse_number(b"9223372036854775807"),
        Ok(9223372036854775807)
    );
    assert_eq!(
        parse_number(b"-9223372036854775808"),
        Ok(-9223372036854775808)
    );
}

#[test]
fn number_overflow_rejected() {
    assert_eq!(parse_number(b"9223372036854775808"), Err(Error::Number));
    assert_eq!(parse_number(b"-9223372036854775809"), Err(Error::Number));
    assert_eq!(parse_number(b"99999999999999999999999"), Err(Error::Number));
}

#[test]
fn number_malformed_rejected() {
    assert_eq!(parse_number(b""), Err(Error::Number));
    assert_eq!(parse_number(b"-"), Err(Error::Number));
    assert_eq!(parse_number(b"+"), Err(Error::Number));
    assert_eq!(parse_number(b"12a"), Err(Error::Number));
    assert_eq!(parse_number(b" 12"), Err(Error::Number));
}
