//! Component behaviour: the dry-run length pass and key-value flattening.

use seredies::components::key_value::{double_len, KeyValuePairs};
use seredies::components::string::RedisString;
use seredies::components::length::{flat_len, Accumulator, Error};
use seredies::de::from_bytes;
use seredies::ser::to_vec;
use seredies::value::{value_eq, Value};

fn bytes_value(b: &[u8]) -> Value {
    Value::String(b.to_vec())
}

#[test]
fn flat_len_counts_strings() {
    assert_eq!(flat_len(&bytes_value(b"GET")), Ok(1));
}

#[test]
fn flat_len_sums_sequences() {
    let v = Value::Array(vec![
        bytes_value(b"SET"),
        bytes_value(b"key"),
        bytes_value(b"value"),
    ]);
    assert_eq!(flat_len(&v), Ok(3));
}

#[test]
fn flat_len_flattens_nested_sequences() {
    let v = Value::Array(vec![
        bytes_value(b"HMSET"),
        Value::Array(vec![bytes_value(b"k1"), bytes_value(b"v1")]),
        Value::Array(vec![bytes_value(b"k2"), bytes_value(b"v2")]),
    ]);
    assert_eq!(flat_len(&v), Ok(5));
}

#[test]
fn flat_len_rejects_non_flat_kinds() {
    assert!(matches!(
        flat_len(&Value::Integer(3)),
        Err(Error::InvalidType(_))
    ));
    assert!(matches!(flat_len(&Value::Null), Err(Error::InvalidType(_))));
    let v = Value::Array(vec![bytes_value(b"SET"), Value::Integer(1)]);
    assert!(matches!(flat_len(&v), Err(Error::InvalidType(_))));
}

#[test]
fn accumulator_tracks_flat_count() {
    let mut acc = Accumulator::new();
    acc.serialize_element(&bytes_value(b"SET"))
        .expect("failed to count");
    acc.serialize_element(&Value::Array(vec![
        bytes_value(b"a"),
        bytes_value(b"b"),
    ]))
    .expect("failed to count");
    assert_eq!(acc.end(), 3);
}

#[test]
fn dry_run_count_matches_emission() {
    // The count of the dry-run pass is the element count the real
    // emission writes into the array header.
    let args = Value::Array(vec![
        bytes_value(b"SET"),
        bytes_value(b"my-key"),
        bytes_value(b"36"),
    ]);
    let count = flat_len(&args).expect("failed to count");
    assert_eq!(count, 3);
    let encoded = to_vec(&args).expect("failed to serialize");
    assert!(encoded.starts_with(b"*3\r\n"));
}

#[test]
fn key_value_pairs_flatten() {
    let mut kv = KeyValuePairs::new();
    kv.insert(bytes_value(b"key1"), bytes_value(b"value1"));
    kv.insert(bytes_value(b"key2"), bytes_value(b"value2"));
    assert_eq!(kv.len(), 2);
    let flat = kv.into_value();
    let expected = Value::Array(vec![
        bytes_value(b"key1"),
        bytes_value(b"value1"),
        bytes_value(b"key2"),
        bytes_value(b"value2"),
    ]);
    assert!(value_eq(&flat, &expected));
}

#[test]
fn key_value_pairs_round_trip_on_wire() {
    let mut kv = KeyValuePairs::new();
    kv.insert(bytes_value(b"name"), bytes_value(b"redis"));
    let encoded = to_vec(&kv.into_value()).expect("failed to serialize");
    assert_eq!(encoded, b"*2\r\n$4\r\nname\r\n$5\r\nredis\r\n");
    let decoded = from_bytes(&encoded).expect("failed to deserialize");
    let back = KeyValuePairs::from_value(decoded).expect("failed to adapt");
    assert_eq!(back.len(), 1);
}

#[test]
fn key_value_pairs_reject_odd_arrays() {
    let odd = Value::Array(vec![bytes_value(b"key1")]);
    assert!(KeyValuePairs::from_value(odd).is_err());
}

#[test]
fn key_value_pairs_reject_non_arrays() {
    assert!(KeyValuePairs::from_value(Value::Integer(3)).is_err());
}

#[test]
fn double_len_checks_overflow() {
    assert_eq!(double_len(4).expect("doubling failed"), 8);
    assert!(double_len(usize::MAX / 2 + 1).is_err());
}

#[test]
fn accumulator_overflow_detected() {
    let mut acc = Accumulator { length: usize::MAX };
    let r = acc.serialize_element(&bytes_value(b"x"));
    assert!(matches!(r, Err(Error::Overflow)));
}

#[test]
fn redis_string_renders_numbers() {
    let rs = RedisString::from_i64(-105);
    let v = rs.into_value();
    let encoded = to_vec(&v).expect("failed to serialize");
    assert_eq!(encoded, b"$4\r\n-105\r\n");
}

#[test]
fn redis_string_parses_numbers_back() {
    let decoded = from_bytes(b"$2\r\n36\r\n").expect("failed to deserialize");
    let rs = RedisString::from_value(decoded).expect("expected a byte string");
    assert_eq!(rs.to_i64().expect("expected a number"), 36);
}

#[test]
fn redis_string_rejects_non_strings() {
    assert!(RedisString::from_value(Value::Integer(3)).is_err());
    let rs = RedisString::new(b"abc".to_vec());
    assert!(rs.to_i64().is_err());
}
