//! Encoder behaviour: scalars, arrays, options, results and errors.

use seredies::ser::{to_vec, BaseSerializer, Error, SerializeResultError, Serializer};
use seredies::value::Value;

fn bytes_value(b: &[u8]) -> Value {
    Value::String(b.to_vec())
}

fn assert_encodes(value: &Value, expected: &[u8]) {
    let got = to_vec(value).expect("failed to serialize");
    assert_eq!(got, expected);
}

#[test]
fn ser_integer() {
    assert_encodes(&Value::Integer(1000), b":1000\r\n");
}

#[test]
fn ser_negative_int() {
    assert_encodes(&Value::Integer(-1000), b":-1000\r\n");
}

#[test]
fn ser_smallest_integer() {
    assert_encodes(
        &Value::Integer(i64::MIN),
        b":-9223372036854775808\r\n",
    );
}

#[test]
fn ser_bulk_string() {
    assert_encodes(&bytes_value(b"Hello, World!"), b"$13\r\nHello, World!\r\n");
}

#[test]
fn ser_empty_bulk_string() {
    assert_encodes(&Value::String(Vec::new()), b"$0\r\n\r\n");
}

#[test]
fn ser_null() {
    assert_encodes(&Value::Null, b"$-1\r\n");
}

#[test]
fn ser_array() {
    assert_encodes(
        &Value::Array(vec![bytes_value(b"hello"), bytes_value(b"world")]),
        b"*2\r\n$5\r\nhello\r\n$5\r\nworld\r\n",
    );
}

#[test]
fn ser_heterogeneous() {
    assert_encodes(
        &Value::Array(vec![
            Value::Integer(10),
            bytes_value(b"hello"),
            Value::Null,
        ]),
        b"*3\r\n:10\r\n$5\r\nhello\r\n$-1\r\n",
    );
}

#[test]
fn ser_nested_array() {
    assert_encodes(
        &Value::Array(vec![
            Value::Array(vec![bytes_value(b"hello"), bytes_value(b"world")]),
            Value::Array(vec![bytes_value(b"goodbye"), bytes_value(b"night")]),
            Value::Array(vec![bytes_value(b"abc"), bytes_value(b"def")]),
        ]),
        b"*3\r\n*2\r\n$5\r\nhello\r\n$5\r\nworld\r\n*2\r\n$7\r\ngoodbye\r\n$5\r\nnight\r\n*2\r\n$3\r\nabc\r\n$3\r\ndef\r\n",
    );
}

#[test]
fn ser_test_bool() {
    let mut ser = Serializer::new(Vec::new());
    ser.serialize_bool(true).expect("failed to serialize");
    assert_eq!(ser.into_output(), b":1\r\n");
}

#[test]
fn ser_bool_false() {
    let mut ser = Serializer::new(Vec::new());
    ser.serialize_bool(false).expect("failed to serialize");
    assert_eq!(ser.into_output(), b":0\r\n");
}

#[test]
fn ser_test_options() {
    let data = Value::Array(vec![
        Value::Integer(3),
        Value::Null,
        bytes_value(b"hello"),
    ]);
    assert_encodes(&data, b"*3\r\n:3\r\n$-1\r\n$5\r\nhello\r\n");
}

#[test]
fn ser_test_result_ok() {
    let mut ser = Serializer::new(Vec::new());
    ser.serialize_result_ok(&bytes_value(b"hello"))
        .expect("failed to serialize");
    assert_eq!(ser.into_output(), b"$5\r\nhello\r\n");
}

#[test]
fn ser_test_result_some() {
    let mut ser = BaseSerializer::new_ok(Vec::new());
    ser.serialize_some(&bytes_value(b"hello"))
        .expect("failed to serialize");
    assert_eq!(ser.into_output(), b"$5\r\nhello\r\n");
}

#[test]
fn ser_test_result_none() {
    let mut ser = BaseSerializer::new_ok(Vec::new());
    ser.serialize_none().expect("failed to serialize");
    assert_eq!(ser.into_output(), b"$-1\r\n");
}

#[test]
fn ser_test_result_unit() {
    let mut ser = BaseSerializer::new_ok(Vec::new());
    ser.serialize_unit().expect("failed to serialize");
    assert_eq!(ser.into_output(), b"+OK\r\n");
}

#[test]
fn ser_unit_defaults_to_null() {
    let mut ser = BaseSerializer::new(Vec::new());
    ser.serialize_unit().expect("failed to serialize");
    assert_eq!(ser.into_output(), b"$-1\r\n");
}

#[test]
fn test_result_error() {
    let mut ser = Serializer::new(Vec::new());
    ser.serialize_result_err(b"ERROR bad data")
        .expect("failed to serialize");
    assert_eq!(ser.into_output(), b"-ERROR bad data\r\n");
}

#[test]
fn error_payload_must_be_single_line() {
    let mut ser = Serializer::new(Vec::new());
    let r = ser.serialize_result_err(b"bad\r\ndata");
    assert!(matches!(r, Err(Error::BadSimpleString)));
    let r = ser.serialize_result_err(b"bad\ndata");
    assert!(matches!(r, Err(Error::BadSimpleString)));
}

#[test]
fn error_payload_emission_is_exact() {
    let mut buffer: Vec<u8> = Vec::new();
    seredies::ser::primitives::serialize_error(&mut buffer, b"oops")
        .expect("failed to serialize");
    assert_eq!(buffer, b"-oops\r\n");
}

#[test]
fn result_error_rejects_wrong_shapes() {
    assert!(matches!(
        SerializeResultError::new().serialize_bool(true),
        Err(Error::InvalidErrorPayload)
    ));
    assert!(matches!(
        SerializeResultError::new().serialize_i64(3),
        Err(Error::InvalidErrorPayload)
    ));
    assert!(matches!(
        SerializeResultError::new().serialize_none(),
        Err(Error::InvalidErrorPayload)
    ));
    assert!(matches!(
        SerializeResultError::new().serialize_unit(),
        Err(Error::InvalidErrorPayload)
    ));
    assert!(matches!(
        SerializeResultError::new().serialize_seq(Some(2)),
        Err(Error::InvalidErrorPayload)
    ));
}

#[test]
fn result_error_accepts_bytes() {
    let mut buffer: Vec<u8> = Vec::new();
    SerializeResultError::new()
        .serialize_bytes(&mut buffer, b"ERR wrong type")
        .expect("failed to serialize");
    assert_eq!(buffer, b"-ERR wrong type\r\n");
}

#[test]
fn unknown_sequence_length_rejected() {
    let mut ser = BaseSerializer::new(Vec::new());
    let r = ser.serialize_seq(None);
    assert!(matches!(r, Err(Error::UnknownSeqLength)));
}

#[test]
fn sequence_length_must_match() {
    let mut ser = BaseSerializer::new(Vec::new());
    let mut seq = ser.serialize_seq(Some(2)).expect("failed to serialize");
    seq.serialize_element(&mut ser, &Value::Integer(1))
        .expect("failed to serialize");
    // Ending after one of two declared elements is a length mismatch.
    assert!(matches!(seq.end(), Err(Error::BadSeqLength)));
}

#[test]
fn sequence_extra_element_rejected() {
    let mut ser = BaseSerializer::new(Vec::new());
    let mut seq = ser.serialize_seq(Some(1)).expect("failed to serialize");
    seq.serialize_element(&mut ser, &Value::Integer(1))
        .expect("failed to serialize");
    let r = seq.serialize_element(&mut ser, &Value::Integer(2));
    assert!(matches!(r, Err(Error::BadSeqLength)));
}

#[test]
fn sequence_happy_path() {
    let mut ser = BaseSerializer::new(Vec::new());
    let mut seq = ser.serialize_seq(Some(2)).expect("failed to serialize");
    seq.serialize_element(&mut ser, &bytes_value(b"hello"))
        .expect("failed to serialize");
    seq.serialize_element(&mut ser, &bytes_value(b"world"))
        .expect("failed to serialize");
    seq.end().expect("failed to serialize");
    assert_eq!(ser.into_output(), b"*2\r\n$5\r\nhello\r\n$5\r\nworld\r\n");
}

#[test]
fn numbers_beyond_i64_rejected() {
    let mut ser = BaseSerializer::new(Vec::new());
    assert!(matches!(
        ser.serialize_u64(u64::MAX),
        Err(Error::NumberOutOfRange)
    ));
    assert!(matches!(
        ser.serialize_u128(u128::MAX),
        Err(Error::NumberOutOfRange)
    ));
    assert!(matches!(
        ser.serialize_i128(i128::MIN),
        Err(Error::NumberOutOfRange)
    ));
    ser.serialize_u64(9223372036854775807).expect("failed to serialize");
    assert_eq!(ser.into_output(), b":9223372036854775807\r\n");
}

#[test]
fn all_integer_widths_encode() {
    let mut ser = BaseSerializer::new(Vec::new());
    ser.serialize_i8(-8).expect("failed to serialize");
    ser.serialize_i16(-16).expect("failed to serialize");
    ser.serialize_i32(-32).expect("failed to serialize");
    ser.serialize_i64(-64).expect("failed to serialize");
    ser.serialize_i128(-128).expect("failed to serialize");
    ser.serialize_u8(8).expect("failed to serialize");
    ser.serialize_u16(16).expect("failed to serialize");
    ser.serialize_u32(32).expect("failed to serialize");
    ser.serialize_u64(64).expect("failed to serialize");
    ser.serialize_u128(128).expect("failed to serialize");
    assert_eq!(
        ser.into_output(),
        b":-8\r\n:-16\r\n:-32\r\n:-64\r\n:-128\r\n:8\r\n:16\r\n:32\r\n:64\r\n:128\r\n"
    );
}

#[test]
fn maps_and_structs_unsupported() {
    let mut ser = BaseSerializer::new(Vec::new());
    assert!(matches!(
        ser.serialize_map(),
        Err(Error::UnsupportedType("map"))
    ));
    assert!(matches!(
        ser.serialize_struct(),
        Err(Error::UnsupportedType("struct"))
    ));
}

#[test]
fn unit_variant_encodes_its_name() {
    let mut ser = BaseSerializer::new(Vec::new());
    ser.serialize_unit_variant(b"Flag").expect("failed to serialize");
    assert_eq!(ser.into_output(), b"$4\r\nFlag\r\n");
}

#[test]
fn number_reservation_is_exact() {
    assert_eq!(seredies::ser::primitives::estimate_number_reservation(0), 1);
    assert_eq!(seredies::ser::primitives::estimate_number_reservation(9), 1);
    assert_eq!(seredies::ser::primitives::estimate_number_reservation(10), 2);
    assert_eq!(seredies::ser::primitives::estimate_number_reservation(-105), 4);
    assert_eq!(seredies::ser::primitives::estimate_number_reservation(i64::MAX), 19);
    assert_eq!(seredies::ser::primitives::estimate_number_reservation(i64::MIN), 20);
}

#[test]
fn array_reservation_estimate() {
    assert_eq!(seredies::ser::primitives::estimate_array_reservation(0), 0);
    assert_eq!(seredies::ser::primitives::estimate_array_reservation(3), 18);
}

#[test]
fn round_trip_through_both_codecs() {
    let value = Value::Array(vec![
        Value::Integer(-42),
        bytes_value(b"binary\x00safe"),
        Value::Null,
        Value::Array(vec![bytes_value(b"nested")]),
    ]);
    let encoded = to_vec(&value).expect("failed to serialize");
    let decoded = seredies::de::from_bytes(&encoded).expect("failed to deserialize");
    assert!(seredies::value::value_eq(&decoded, &value));
}

#[test]
fn pipelined_encode_then_decode() {
    let first = bytes_value(b"one");
    let second = Value::Integer(2);
    let mut buffer = to_vec(&first).expect("failed to serialize");
    let mut tail = to_vec(&second).expect("failed to serialize");
    buffer.append(&mut tail);
    let mut de = seredies::de::Deserializer::new(&buffer);
    let got1 = de.decode_value().expect("failed to deserialize");
    let got2 = de.decode_value().expect("failed to deserialize");
    assert!(seredies::value::value_eq(&got1, &first));
    assert!(seredies::value::value_eq(&got2, &second));
    assert!(de.is_empty());
}
