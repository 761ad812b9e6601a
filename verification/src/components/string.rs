//! The decimal-string adaptation.
//!
//! Redis commands carry every argument as a string, even numeric ones. A
//! [`RedisString`] holds such an argument as raw bytes and converts
//! integers to and from their ASCII decimal rendering, so numeric data can
//! travel the wire as the bulk string a command expects.

use vstd::prelude::*;

use crate::value::{Value, ValueModel};
use crate::wire::{dec_int, spec_parse_number};

verus! {

/// A value carried as a Redis string: raw bytes, most often the decimal
/// rendering of a number.
#[derive(Debug)]
pub struct RedisString(pub Vec<u8>);

impl View for RedisString {
    type V = Seq<u8>;

    open spec fn view(&self) -> Seq<u8> {
        self.0@
    }
}

impl RedisString {
    /// Wrap raw bytes.
    pub fn new(bytes: Vec<u8>) -> (r: Self)
        ensures
            r@ == bytes@,
    {
        RedisString(bytes)
    }

    /// Render an integer as its decimal string.
    pub fn from_i64(value: i64) -> (r: Self)
        ensures
            r@ == dec_int(value as int),
    {
        RedisString(crate::ser::primitives::format_i64(value))
    }

    /// Parse the string back as a signed 64-bit decimal number.
    pub fn to_i64(&self) -> (r: Result<i64, crate::parse::Error>)
        ensures
            match spec_parse_number(self@) {
                Some(v) => r == Ok::<i64, crate::parse::Error>(v),
                None => r == Err::<i64, crate::parse::Error>(crate::parse::Error::Number),
            },
    {
        crate::parse::parse_number(self.0.as_slice())
    }

    /// The value the string travels as: a binary-safe bulk string.
    pub fn into_value(self) -> (r: Value)
        ensures
            r@ == ValueModel::Bytes(self@),
    {
        Value::String(self.0)
    }

    /// Read a string argument back from a decoded value; only byte
    /// strings qualify.
    pub fn from_value(v: Value) -> (r: Result<Self, crate::de::Error>)
        ensures
            match v@ {
                ValueModel::Bytes(b) => r matches Ok(rs) && rs@ == b,
                _ => r matches Err(e) && e@ == crate::de::ErrorModel::Custom,
            },
    {
        match v {
            Value::String(bytes) => Ok(RedisString(bytes)),
            _ => Err(crate::de::Error::Custom(
                "a redis string needs a byte string".to_owned(),
            )),
        }
    }
}

/// A rendered integer reads back as itself: the decimal adaptation loses
/// nothing on numbers in the signed 64-bit range.
pub proof fn lemma_redis_string_number_round_trip(value: i64)
    ensures
        spec_parse_number(dec_int(value as int)) == Some(value),
{
    crate::laws::lemma_parse_dec_int(value as int);
}

} // verus!
