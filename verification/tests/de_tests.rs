//! Decoder behaviour: scalars, arrays, options, results and errors.

use seredies::de::result::ResultAccess;
use seredies::de::{from_bytes, DecodedBool, Deserializer, Error};
use seredies::parse;
use seredies::value::{value_eq, Value};

fn bytes_value(b: &[u8]) -> Value {
    Value::String(b.to_vec())
}

fn decode_all(input: &[u8]) -> Value {
    from_bytes(input).expect("failed to deserialize")
}

fn assert_decodes(input: &[u8], expected: &Value) {
    let got = decode_all(input);
    assert!(value_eq(&got, expected));
}

#[test]
fn simple_string() {
    assert_decodes(b"+Hello, World\r\n", &bytes_value(b"Hello, World"));
}

#[test]
fn empty_simple_string() {
    assert_decodes(b"+\r\n", &bytes_value(b""));
}

#[test]
fn integer() {
    assert_decodes(b":1000\r\n", &Value::Integer(1000));
}

#[test]
fn negative_int() {
    assert_decodes(b":-1000\r\n", &Value::Integer(-1000));
}

#[test]
fn bulk_string() {
    assert_decodes(b"$5\r\nhello\r\n", &bytes_value(b"hello"));
}

#[test]
fn empty_bulk_string() {
    assert_decodes(b"$0\r\n\r\n", &Value::String(Vec::new()));
}

#[test]
fn null() {
    assert_decodes(b"$-1\r\n", &Value::Null);
}

#[test]
fn weird_null() {
    // Redundant sign padding on the sentinel still parses to -1.
    assert_decodes(b"$-001\r\n", &Value::Null);
}

#[test]
fn array() {
    assert_decodes(
        b"*2\r\n$5\r\nhello\r\n$5\r\nworld\r\n",
        &Value::Array(vec![bytes_value(b"hello"), bytes_value(b"world")]),
    );
}

#[test]
fn heterogeneous() {
    assert_decodes(
        b"*3\r\n:10\r\n$5\r\nhello\r\n$-1\r\n",
        &Value::Array(vec![
            Value::Integer(10),
            bytes_value(b"hello"),
            Value::Null,
        ]),
    );
}

#[test]
fn nested_array() {
    let expected = Value::Array(vec![
        Value::Array(vec![bytes_value(b"hello"), bytes_value(b"world")]),
        Value::Array(vec![bytes_value(b"goodbye"), bytes_value(b"night")]),
        Value::Array(vec![bytes_value(b"abc"), bytes_value(b"def")]),
    ]);
    assert_decodes(
        b"*3\r\n*2\r\n+hello\r\n+world\r\n*2\r\n+goodbye\r\n+night\r\n*2\r\n$3\r\nabc\r\n$3\r\ndef\r\n",
        &expected,
    );
}

#[test]
fn de_test_bool() {
    let input = b":1\r\n";
    let mut de = Deserializer::new(input);
    match de.decode_bool().expect("failed to deserialize") {
        DecodedBool::Flag(b) => assert!(b),
        DecodedBool::Other(_) => panic!("expected a boolean"),
    }
    assert!(de.is_empty());
}

#[test]
fn bool_zero_is_false() {
    let mut de = Deserializer::new(b":0\r\n");
    match de.decode_bool().expect("failed to deserialize") {
        DecodedBool::Flag(b) => assert!(!b),
        DecodedBool::Other(_) => panic!("expected a boolean"),
    }
}

#[test]
fn bool_other_integer_passes_through() {
    let mut de = Deserializer::new(b":7\r\n");
    match de.decode_bool().expect("failed to deserialize") {
        DecodedBool::Flag(_) => panic!("7 is not a boolean"),
        DecodedBool::Other(v) => assert!(value_eq(&v, &Value::Integer(7))),
    }
}

#[test]
fn generic_decode_keeps_integer_one() {
    // The boolean reinterpretation only applies when a boolean is asked
    // for; a generic decode of :1 yields the integer 1.
    assert_decodes(b":1\r\n", &Value::Integer(1));
}

#[test]
fn de_test_options() {
    let input = b"*3\r\n:3\r\n$-1\r\n$5\r\nhello\r\n";
    let expected = Value::Array(vec![
        Value::Integer(3),
        Value::Null,
        bytes_value(b"hello"),
    ]);
    assert_decodes(input, &expected);
}

#[test]
fn option_absent() {
    let mut de = Deserializer::new(b"$-1\r\n");
    let got = de.decode_option().expect("failed to deserialize");
    assert!(got.is_none());
    assert!(de.is_empty());
}

#[test]
fn option_present() {
    let mut de = Deserializer::new(b"$5\r\nhello\r\n");
    let got = de.decode_option().expect("failed to deserialize");
    match got {
        Some(v) => assert!(value_eq(&v, &bytes_value(b"hello"))),
        None => panic!("expected a present option"),
    }
    assert!(de.is_empty());
}

#[test]
fn test_error() {
    let input = b"-ERROR bad data\r\n";
    let mut de = Deserializer::new(input);
    let result = de.decode_value().expect_err("deserialization unexpectedly succeeded");
    match result {
        Error::Redis(message) => assert_eq!(message, b"ERROR bad data"),
        other => panic!("wrong error: {:?}", other),
    }
}

#[test]
fn de_test_result_ok() {
    let mut de = Deserializer::new(b"$5\r\nhello\r\n");
    let result = de.decode_result().expect("Failed to deserialize");
    match result {
        ResultAccess::Success(p) => {
            assert!(value_eq(&p.value(), &bytes_value(b"hello")));
        },
        _ => panic!("expected a success"),
    }
    assert!(de.is_empty());
}

#[test]
fn de_test_result_some() {
    let mut de = Deserializer::new(b"$5\r\nhello\r\n");
    let result = de.decode_result().expect("Failed to deserialize");
    match result {
        ResultAccess::Success(p) => {
            assert!(value_eq(&p.value(), &bytes_value(b"hello")));
        },
        _ => panic!("expected a present success"),
    }
    assert!(de.is_empty());
}

#[test]
fn de_test_result_none() {
    let mut de = Deserializer::new(b"$-1\r\n");
    let result = de.decode_result().expect("Failed to deserialize");
    match result {
        ResultAccess::Success(p) => assert!(value_eq(&p.value(), &Value::Null)),
        _ => panic!("expected an absent success"),
    }
    assert!(de.is_empty());
}

#[test]
fn de_test_result_unit() {
    let mut de = Deserializer::new(b"+OK\r\n");
    let result = de.decode_result().expect("Failed to deserialize");
    assert!(matches!(result, ResultAccess::PlainOk(_)));
    assert!(de.is_empty());
}

#[test]
fn test_result_unit_str() {
    let mut de = Deserializer::new(b"+OK\r\n");
    let result = de.decode_result().expect("Failed to deserialize");
    match result {
        ResultAccess::PlainOk(p) => assert_eq!(p.value(), b"OK"),
        _ => panic!("expected the bare OK"),
    }
    assert!(de.is_empty());
}

#[test]
fn test_result_error_msg() {
    let mut de = Deserializer::new(b"-ERROR bad data\r\n");
    let result = de.decode_result().expect("Failed to deserialize");
    match result {
        ResultAccess::Failure(p) => assert_eq!(p.value(), b"ERROR bad data"),
        _ => panic!("expected a failure"),
    }
    assert!(de.is_empty());
}

#[test]
fn result_of_other_simple_string_is_its_text() {
    let mut de = Deserializer::new(b"+PONG\r\n");
    let result = de.decode_result().expect("failed to deserialize");
    match result {
        ResultAccess::Success(p) => assert!(value_eq(&p.value(), &bytes_value(b"PONG"))),
        _ => panic!("expected a success"),
    }
}

#[test]
fn pipelining_two_values() {
    let input = b":10\r\n$5\r\nhello\r\n";
    let mut de = Deserializer::new(input);
    let first = de.decode_value().expect("failed to deserialize");
    assert!(value_eq(&first, &Value::Integer(10)));
    let second = de.decode_value().expect("failed to deserialize");
    assert!(value_eq(&second, &bytes_value(b"hello")));
    assert!(de.is_empty());
}

#[test]
fn trailing_data_rejected_by_from_bytes() {
    let result = from_bytes(b":1\r\n:2\r\n");
    assert!(matches!(result, Err(Error::TrailingData)));
}

#[test]
fn bad_tag_reported() {
    let result = from_bytes(b"xyz\r\n");
    assert!(matches!(
        result,
        Err(Error::Parse(parse::Error::BadTag(b'x')))
    ));
}

#[test]
fn malformed_newline_reported() {
    let result = from_bytes(b"+OK\n\r");
    assert!(matches!(
        result,
        Err(Error::Parse(parse::Error::MalformedNewline))
    ));
}

#[test]
fn malformed_number_reported() {
    let result = from_bytes(b":abc\r\n");
    assert!(matches!(result, Err(Error::Parse(parse::Error::Number))));
}

#[test]
fn negative_bulk_length_reported() {
    let result = from_bytes(b"$-2\r\n");
    assert!(matches!(result, Err(Error::Length)));
}

#[test]
fn bulk_length_over_ceiling_reported() {
    // One byte over the 512 MiB ceiling fails before any slicing.
    let result = from_bytes(b"$536870913\r\nx\r\n");
    assert!(matches!(result, Err(Error::Length)));
}

#[test]
fn truncated_scalar_recovers_with_reported_bytes() {
    // Decoding any truncated prefix reports how many bytes are missing;
    // supplying them (repeatedly, since the report is a minimum) makes
    // the decode succeed.
    let full: &[u8] = b"$5\r\nhello\r\n";
    for cut in 0..full.len() {
        let mut have = cut;
        loop {
            match from_bytes(&full[..have]) {
                Ok(v) => {
                    assert!(value_eq(&v, &Value::String(b"hello".to_vec())));
                    break;
                },
                Err(Error::Parse(parse::Error::UnexpectedEof(n))) => {
                    assert!(n > 0);
                    assert!(have + n <= full.len(), "overshot the encoding");
                    have += n;
                },
                Err(other) => panic!("unexpected error: {:?}", other),
            }
        }
    }
}

#[test]
fn truncated_array_reports_missing_bytes() {
    let full: &[u8] = b"*2\r\n:10\r\n$5\r\nhello\r\n";
    for cut in 0..full.len() {
        match from_bytes(&full[..cut]) {
            Ok(_) => panic!("a strict prefix decoded"),
            Err(Error::Parse(parse::Error::UnexpectedEof(n))) => assert!(n > 0),
            Err(other) => panic!("unexpected error: {:?}", other),
        }
    }
    assert!(from_bytes(full).is_ok());
}

#[test]
fn empty_array_decodes() {
    assert_decodes(b"*0\r\n", &Value::Array(Vec::new()));
}

#[test]
fn null_array_decodes_to_null() {
    assert_decodes(b"*-1\r\n", &Value::Null);
}

#[test]
fn array_count_over_ceiling_reported() {
    let result = from_bytes(b"*536870913\r\n");
    assert!(matches!(result, Err(Error::Length)));
}

#[test]
fn short_error_reply_scenario() {
    let mut de = Deserializer::new(b"-ERR bad\r\n");
    let failed = de.decode_value().expect_err("deserialization unexpectedly succeeded");
    assert!(matches!(failed, Error::Redis(m) if m == b"ERR bad"));
    let mut de = Deserializer::new(b"-ERR bad\r\n");
    match de.decode_result().expect("failed to deserialize") {
        ResultAccess::Failure(p) => assert_eq!(p.value(), b"ERR bad"),
        _ => panic!("expected a failure"),
    }
}
