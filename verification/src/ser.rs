//! The RESP encoder.
//!
//! [`serialize_value`] writes the exact wire bytes of a [`Value`] to any
//! [`Output`] sink; [`to_vec`] collects them in a byte buffer. A
//! [`BaseSerializer`] adds the typed entry points: every integer width,
//! booleans, byte strings, options, sequences and the success-or-failure
//! convention, under which a bare unit success is written as `+OK` instead
//! of null.

pub mod output;
pub mod primitives;

use vstd::prelude::*;

use crate::value::{lemma_models_of_index, lemma_models_of_len, models_of, Value, ValueModel};
use crate::wire::{all_encodable, crlf, dec_int, encodable, lemma_all_encodable_index,
    lemma_wire_seq_take, line_safe,
    wire_bulk, wire_error, wire_null, wire_of, wire_seq, wire_simple};
use self::output::Output;
use self::primitives::{estimate_array_reservation, serialize_array_header, serialize_bulk_string,
    serialize_error, serialize_number};

verus! {

broadcast use vstd::std_specs::vec::group_vec_axioms;

/// Errors that can occur while encoding RESP data.
#[derive(Debug, PartialEq, Eq)]
pub enum Error {
    /// The shape has no RESP wire representation; the payload names it.
    UnsupportedType(&'static str),
    /// A number was outside the signed 64-bit range that RESP integers
    /// must fit.
    NumberOutOfRange,
    /// A sequence was encoded without a known length; RESP arrays are
    /// length-prefixed.
    UnknownSeqLength,
    /// More or fewer elements were written than the array header declared.
    BadSeqLength,
    /// A single-line reply was asked to carry a CR or LF byte.
    BadSimpleString,
    /// The destination reported a write failure.
    Io,
    /// An error reported by the producer of the encoded data.
    Custom(String),
    /// A failure payload had a shape an error reply cannot carry.
    InvalidErrorPayload,
    /// A text destination was asked to hold bytes that are not UTF-8.
    Utf8Encode,
}

/// The bytes of the bare success reply: `+OK` and the line terminator.
pub open spec fn ok_line() -> Seq<u8> {
    wire_simple(seq![79u8, 75u8])
}

/// Write the exact wire bytes of one value.
pub fn serialize_value<O: Output>(output: &mut O, v: &Value) -> (r: Result<(), Error>)
    ensures
        r matches Ok(()) ==> final(output).contents() == old(output).contents() + wire_of(v@),
        r matches Ok(()) ==> encodable(v@),
        O::reliable() && encodable(v@) ==> r is Ok,
    decreases v,
{
    match v {
        Value::Integer(i) => serialize_number(output, *i),
        Value::String(s) => {
            if s.len() as u64 > i64::MAX as u64 {
                return Err(Error::NumberOutOfRange);
            }
            serialize_bulk_string(output, s.as_slice())
        },
        Value::Null => write_null(output),
        Value::Array(vs) => {
            proof {
                lemma_models_of_len(vs@);
            }
            if vs.len() as u64 > i64::MAX as u64 {
                return Err(Error::NumberOutOfRange);
            }
            match serialize_array_header(output, vs.len()) {
                Err(e) => {
                    return Err(e);
                },
                Ok(()) => {},
            }
            let r = serialize_elems(output, vs);
            proof {
                if r is Ok {
                    assert(old(output).contents() + (seq![42u8] + dec_int(vs@.len() as int)
                        + crlf()) + wire_seq(models_of(vs@)) =~= old(output).contents() + wire_of(
                        v@,
                    ));
                }
            }
            r
        },
    }
}

/// Write the wire bytes of each value in turn.
#[verifier::loop_isolation(false)]
fn serialize_elems<O: Output>(output: &mut O, vs: &Vec<Value>) -> (r: Result<(), Error>)
    ensures
        r matches Ok(()) ==> final(output).contents() == old(output).contents() + wire_seq(
            models_of(vs@),
        ),
        r matches Ok(()) ==> all_encodable(models_of(vs@)),
        O::reliable() && encodable(ValueModel::List(models_of(vs@))) ==> r is Ok,
    decreases vs,
{
    let ghost ms = models_of(vs@);
    proof {
        lemma_models_of_len(vs@);
    }
    let n = vs.len();
    let mut i: usize = 0;
    proof {
        assert(ms.take(0) =~= Seq::<ValueModel>::empty());
        assert(all_encodable(ms.take(0)));
    }
    while i < n
        invariant
            0 <= i <= n,
            output.contents() == old(output).contents() + wire_seq(ms.take(i as int)),
            all_encodable(ms.take(i as int)),
        decreases n - i,
    {
        proof {
            lemma_models_of_index(vs@, i as int);
            if all_encodable(ms) {
                lemma_all_encodable_index(ms, i as int);
            }
        }
        match serialize_value(output, &vs[i]) {
            Err(e) => {
                return Err(e);
            },
            Ok(()) => {},
        }
        proof {
            lemma_wire_seq_take(ms, i as int);
            assert((old(output).contents() + wire_seq(ms.take(i as int))) + wire_of(ms[i as int])
                =~= old(output).contents() + wire_seq(ms.take(i + 1)));
            crate::wire::lemma_all_encodable_extend(ms, i as int);
        }
        i += 1;
    }
    proof {
        assert(ms.take(n as int) =~= ms);
    }
    Ok(())
}

/// Write the null sentinel: a bulk string of length -1.
fn write_null<O: Output>(output: &mut O) -> (r: Result<(), Error>)
    ensures
        r matches Ok(()) ==> final(output).contents() == old(output).contents() + wire_null(),
        O::reliable() ==> r is Ok,
{
    let mut b: Vec<u8> = Vec::new();
    b.push(36);
    b.push(45);
    b.push(49);
    b.push(13);
    b.push(10);
    proof {
        assert(b@ =~= wire_null());
    }
    output.write_bytes(b.as_slice())
}

/// Write the bare success reply `+OK` with its line terminator.
fn write_plain_ok<O: Output>(output: &mut O) -> (r: Result<(), Error>)
    ensures
        r matches Ok(()) ==> final(output).contents() == old(output).contents() + ok_line(),
        O::reliable() ==> r is Ok,
{
    let mut b: Vec<u8> = Vec::new();
    b.push(43);
    b.push(79);
    b.push(75);
    b.push(13);
    b.push(10);
    proof {
        assert(b@ =~= ok_line());
    }
    output.write_bytes(b.as_slice())
}

/// Encode one value as a RESP byte buffer.
pub fn to_vec(v: &Value) -> (r: Result<Vec<u8>, Error>)
    ensures
        encodable(v@) ==> (r matches Ok(out) && out@ == wire_of(v@)),
        r matches Ok(out) ==> out@ == wire_of(v@),
{
    let mut buffer: Vec<u8> = Vec::new();
    match serialize_value(&mut buffer, v) {
        Ok(()) => Ok(buffer),
        Err(e) => Err(e),
    }
}

/// The typed encoder: one entry point per supported shape, writing to an
/// owned [`Output`] destination.
///
/// The `ok_unit` mode decides what a bare unit means: null by default, the
/// `+OK` success line inside the success arm of a result.
pub struct BaseSerializer<O: Output> {
    /// The destination the encoder writes to.
    output: O,
    /// Whether a bare unit is written as the `+OK` line instead of null.
    ok_unit: bool,
}

impl<O: Output> BaseSerializer<O> {
    /// The bytes written to the destination so far.
    pub closed spec fn written(&self) -> Seq<u8> {
        self.output.contents()
    }

    /// Whether a bare unit is written as the `+OK` line.
    pub closed spec fn ok_mode(&self) -> bool {
        self.ok_unit
    }

    /// An encoder in the default mode: a bare unit is written as null.
    pub fn new(writer: O) -> (r: Self)
        ensures
            r.written() == writer.contents(),
            !r.ok_mode(),
    {
        BaseSerializer { output: writer, ok_unit: false }
    }

    /// An encoder for the success arm of a result: a bare unit is written
    /// as the `+OK` line.
    pub fn new_ok(writer: O) -> (r: Self)
        ensures
            r.written() == writer.contents(),
            r.ok_mode(),
    {
        BaseSerializer { output: writer, ok_unit: true }
    }

    /// Give the destination back.
    pub fn into_output(self) -> (r: O)
        ensures
            r.contents() == self.written(),
    {
        self.output
    }

    /// Encode a boolean as the integer 1 or 0.
    pub fn serialize_bool(&mut self, v: bool) -> (r: Result<(), Error>)
        ensures
            r matches Ok(()) ==> final(self).written() == old(self).written() + wire_of(
                ValueModel::Int(if v { 1int } else { 0int }),
            ),
            O::reliable() ==> r is Ok,
            final(self).ok_mode() == old(self).ok_mode(),
    {
        serialize_number(&mut self.output, if v { 1 } else { 0 })
    }

    /// Encode a signed 8-bit integer.
    pub fn serialize_i8(&mut self, v: i8) -> (r: Result<(), Error>)
        ensures
            r matches Ok(()) ==> final(self).written() == old(self).written() + wire_of(
                ValueModel::Int(v as int),
            ),
            O::reliable() ==> r is Ok,
            final(self).ok_mode() == old(self).ok_mode(),
    {
        serialize_number(&mut self.output, v as i64)
    }

    /// Encode a signed 16-bit integer.
    pub fn serialize_i16(&mut self, v: i16) -> (r: Result<(), Error>)
        ensures
            r matches Ok(()) ==> final(self).written() == old(self).written() + wire_of(
                ValueModel::Int(v as int),
            ),
            O::reliable() ==> r is Ok,
            final(self).ok_mode() == old(self).ok_mode(),
    {
        serialize_number(&mut self.output, v as i64)
    }

    /// Encode a signed 32-bit integer.
    pub fn serialize_i32(&mut self, v: i32) -> (r: Result<(), Error>)
        ensures
            r matches Ok(()) ==> final(self).written() == old(self).written() + wire_of(
                ValueModel::Int(v as int),
            ),
            O::reliable() ==> r is Ok,
            final(self).ok_mode() == old(self).ok_mode(),
    {
        serialize_number(&mut self.output, v as i64)
    }

    /// Encode a signed 64-bit integer.
    pub fn serialize_i64(&mut self, v: i64) -> (r: Result<(), Error>)
        ensures
            r matches Ok(()) ==> final(self).written() == old(self).written() + wire_of(
                ValueModel::Int(v as int),
            ),
            O::reliable() ==> r is Ok,
            final(self).ok_mode() == old(self).ok_mode(),
    {
        serialize_number(&mut self.output, v)
    }

    /// Encode a signed 128-bit integer, rejecting values outside the
    /// signed 64-bit range RESP integers must fit.
    pub fn serialize_i128(&mut self, v: i128) -> (r: Result<(), Error>)
        ensures
            r matches Ok(()) ==> i64::MIN <= v <= i64::MAX && final(self).written() == old(self).written() + wire_of(ValueModel::Int(v as int)),
            !(i64::MIN <= v <= i64::MAX) ==> (r matches Err(e) && e is NumberOutOfRange && *final(self) == *old(self)),
            O::reliable() && i64::MIN <= v <= i64::MAX ==> r is Ok,
            final(self).ok_mode() == old(self).ok_mode(),
    {
        if v < i64::MIN as i128 || v > i64::MAX as i128 {
            return Err(Error::NumberOutOfRange);
        }
        serialize_number(&mut self.output, v as i64)
    }

    /// Encode an unsigned 8-bit integer.
    pub fn serialize_u8(&mut self, v: u8) -> (r: Result<(), Error>)
        ensures
            r matches Ok(()) ==> final(self).written() == old(self).written() + wire_of(
                ValueModel::Int(v as int),
            ),
            O::reliable() ==> r is Ok,
            final(self).ok_mode() == old(self).ok_mode(),
    {
        serialize_number(&mut self.output, v as i64)
    }

    /// Encode an unsigned 16-bit integer.
    pub fn serialize_u16(&mut self, v: u16) -> (r: Result<(), Error>)
        ensures
            r matches Ok(()) ==> final(self).written() == old(self).written() + wire_of(
                ValueModel::Int(v as int),
            ),
            O::reliable() ==> r is Ok,
            final(self).ok_mode() == old(self).ok_mode(),
    {
        serialize_number(&mut self.output, v as i64)
    }

    /// Encode an unsigned 32-bit integer.
    pub fn serialize_u32(&mut self, v: u32) -> (r: Result<(), Error>)
        ensures
            r matches Ok(()) ==> final(self).written() == old(self).written() + wire_of(
                ValueModel::Int(v as int),
            ),
            O::reliable() ==> r is Ok,
            final(self).ok_mode() == old(self).ok_mode(),
    {
        serialize_number(&mut self.output, v as i64)
    }

    /// Encode an unsigned 64-bit integer, rejecting values above the
    /// signed 64-bit range RESP integers must fit.
    pub fn serialize_u64(&mut self, v: u64) -> (r: Result<(), Error>)
        ensures
            r matches Ok(()) ==> v <= i64::MAX && final(self).written() == old(self).written()
                + wire_of(ValueModel::Int(v as int)),
            v > i64::MAX ==> (r matches Err(e) && e is NumberOutOfRange && *final(self) == *old(self)),
            O::reliable() && v <= i64::MAX ==> r is Ok,
            final(self).ok_mode() == old(self).ok_mode(),
    {
        if v > i64::MAX as u64 {
            return Err(Error::NumberOutOfRange);
        }
        serialize_number(&mut self.output, v as i64)
    }

    /// Encode an unsigned 128-bit integer, rejecting values above the
    /// signed 64-bit range RESP integers must fit.
    pub fn serialize_u128(&mut self, v: u128) -> (r: Result<(), Error>)
        ensures
            r matches Ok(()) ==> v <= i64::MAX && final(self).written() == old(self).written()
                + wire_of(ValueModel::Int(v as int)),
            v > i64::MAX ==> (r matches Err(e) && e is NumberOutOfRange && *final(self) == *old(self)),
            O::reliable() && v <= i64::MAX ==> r is Ok,
            final(self).ok_mode() == old(self).ok_mode(),
    {
        if v > i64::MAX as u128 {
            return Err(Error::NumberOutOfRange);
        }
        serialize_number(&mut self.output, v as i64)
    }

    /// Encode a byte string as a bulk string.
    pub fn serialize_bytes(&mut self, v: &[u8]) -> (r: Result<(), Error>)
        ensures
            r matches Ok(()) ==> final(self).written() == old(self).written() + wire_bulk(v@),
            O::reliable() && v@.len() <= i64::MAX ==> r is Ok,
            final(self).ok_mode() == old(self).ok_mode(),
    {
        if v.len() as u64 > i64::MAX as u64 {
            return Err(Error::NumberOutOfRange);
        }
        serialize_bulk_string(&mut self.output, v)
    }

    /// Encode an absent option as the null sentinel.
    pub fn serialize_none(&mut self) -> (r: Result<(), Error>)
        ensures
            r matches Ok(()) ==> final(self).written() == old(self).written() + wire_null(),
            O::reliable() ==> r is Ok,
            final(self).ok_mode() == old(self).ok_mode(),
    {
        write_null(&mut self.output)
    }

    /// Encode a present option: the inner value directly, with no wrapper
    /// bytes. The unit mode carries over, as it does for every nested
    /// single-value position.
    pub fn serialize_some(&mut self, v: &Value) -> (r: Result<(), Error>)
        ensures
            r matches Ok(()) ==> final(self).written() == old(self).written() + (if old(self).ok_mode() && v@ is Null {
                ok_line()
            } else {
                wire_of(v@)
            }),
            O::reliable() && encodable(v@) ==> r is Ok,
            final(self).ok_mode() == old(self).ok_mode(),
    {
        self.serialize_value(v)
    }

    /// Encode a bare unit: null by default, the `+OK` line in the success
    /// arm of a result.
    pub fn serialize_unit(&mut self) -> (r: Result<(), Error>)
        ensures
            r matches Ok(()) ==> final(self).written() == old(self).written() + (if old(self).ok_mode() {
                ok_line()
            } else {
                wire_null()
            }),
            O::reliable() ==> r is Ok,
            final(self).ok_mode() == old(self).ok_mode(),
    {
        if self.ok_unit {
            write_plain_ok(&mut self.output)
        } else {
            write_null(&mut self.output)
        }
    }

    /// Encode a named unit-like tag as a bulk string holding its name.
    pub fn serialize_unit_variant(&mut self, variant: &[u8]) -> (r: Result<(), Error>)
        ensures
            r matches Ok(()) ==> final(self).written() == old(self).written() + wire_bulk(
                variant@,
            ),
            O::reliable() && variant@.len() <= i64::MAX ==> r is Ok,
            final(self).ok_mode() == old(self).ok_mode(),
    {
        self.serialize_bytes(variant)
    }

    /// Encode one complete value. A bare null at this position is the unit
    /// and follows the unit mode; everything nested deeper is written in
    /// the default mode.
    pub fn serialize_value(&mut self, v: &Value) -> (r: Result<(), Error>)
        ensures
            r matches Ok(()) ==> final(self).written() == old(self).written() + (if old(self).ok_mode() && v@ is Null {
                ok_line()
            } else {
                wire_of(v@)
            }),
            O::reliable() && encodable(v@) ==> r is Ok,
            final(self).ok_mode() == old(self).ok_mode(),
    {
        match v {
            Value::Null => self.serialize_unit(),
            other => serialize_value(&mut self.output, other),
        }
    }

    /// Encode the success arm of a result: the payload in the mode where a
    /// bare unit means the `+OK` line.
    pub fn serialize_result_ok(&mut self, v: &Value) -> (r: Result<(), Error>)
        ensures
            r matches Ok(()) ==> final(self).written() == old(self).written() + (if v@ is Null {
                ok_line()
            } else {
                wire_of(v@)
            }),
            O::reliable() && encodable(v@) ==> r is Ok,
            final(self).ok_mode() == old(self).ok_mode(),
    {
        match v {
            Value::Null => write_plain_ok(&mut self.output),
            other => serialize_value(&mut self.output, other),
        }
    }

    /// Encode the failure arm of a result: an error reply carrying the
    /// payload, which must be a single line.
    pub fn serialize_result_err(&mut self, payload: &[u8]) -> (r: Result<(), Error>)
        ensures
            !line_safe(payload@) ==> (r matches Err(e) && e is BadSimpleString && final(self).written() == old(self).written()),
            r matches Ok(()) ==> line_safe(payload@) && final(self).written() == old(self).written() + wire_error(payload@),
            O::reliable() && line_safe(payload@) ==> r is Ok,
            final(self).ok_mode() == old(self).ok_mode(),
    {
        serialize_error(&mut self.output, payload)
    }

    /// Begin a sequence: write the array header for the known length and
    /// return the tracker that counts the elements still owed. A sequence
    /// of unknown length cannot be encoded, since RESP arrays are
    /// length-prefixed.
    pub fn serialize_seq(&mut self, len: Option<usize>) -> (r: Result<SerializeSeq, Error>)
        ensures
            len is None ==> (r matches Err(e) && e is UnknownSeqLength && *final(self) == *old(self)),
            r matches Ok(s) ==> (len matches Some(l) && s.remaining == l && l <= i64::MAX && final(self).written() == old(self).written() + seq![42u8] + dec_int(l as int) + crlf()),
            O::reliable() && (len matches Some(l) && l <= i64::MAX) ==> r is Ok,
            final(self).ok_mode() == old(self).ok_mode(),
    {
        match len {
            None => Err(Error::UnknownSeqLength),
            Some(l) => self.serialize_tuple(l),
        }
    }

    /// Begin a fixed-arity sequence: as [`Self::serialize_seq`], with the
    /// length always known.
    pub fn serialize_tuple(&mut self, len: usize) -> (r: Result<SerializeSeq, Error>)
        ensures
            r matches Ok(s) ==> s.remaining == len && len <= i64::MAX && final(self).written()
                == old(self).written() + seq![42u8] + dec_int(len as int) + crlf(),
            O::reliable() && len <= i64::MAX ==> r is Ok,
            final(self).ok_mode() == old(self).ok_mode(),
    {
        if len as u64 > i64::MAX as u64 {
            return Err(Error::NumberOutOfRange);
        }
        match serialize_array_header(&mut self.output, len) {
            Err(e) => Err(e),
            Ok(()) => Ok(SerializeSeq { remaining: len }),
        }
    }

    /// Encode a map: RESP has no native key-value representation, so this
    /// always fails; the key-value flattening component adapts maps.
    pub fn serialize_map(&mut self) -> (r: Result<(), Error>)
        ensures
            r matches Err(e) && e is UnsupportedType,
            *final(self) == *old(self),
    {
        Err(Error::UnsupportedType("map"))
    }

    /// Encode a struct with fields: RESP has no native representation, so
    /// this always fails.
    pub fn serialize_struct(&mut self) -> (r: Result<(), Error>)
        ensures
            r matches Err(e) && e is UnsupportedType,
            *final(self) == *old(self),
    {
        Err(Error::UnsupportedType("struct"))
    }
}

/// The element tracker of an in-progress array encode: it counts the
/// elements still owed to the header that has already been written.
pub struct SerializeSeq {
    /// How many elements may still be written.
    pub remaining: usize,
}

impl SerializeSeq {
    /// Begin tracking an array that declared `length` elements.
    pub fn new(length: usize) -> (r: Self)
        ensures
            r.remaining == length,
    {
        SerializeSeq { remaining: length }
    }

    /// Encode the next element, in the default unit mode; writing more
    /// elements than the header declared fails.
    pub fn serialize_element<O: Output>(&mut self, ser: &mut BaseSerializer<O>, v: &Value) -> (r:
        Result<(), Error>)
        ensures
            old(self).remaining == 0 ==> (r matches Err(e) && e is BadSeqLength && final(ser).written() == old(ser).written()),
            r matches Ok(()) ==> (old(self).remaining > 0 && final(self).remaining == old(self).remaining
                - 1 && final(ser).written() == old(ser).written() + wire_of(v@)),
            O::reliable() && old(self).remaining > 0 && encodable(v@) ==> r is Ok,
            final(ser).ok_mode() == old(ser).ok_mode(),
    {
        let reservation = estimate_array_reservation(self.remaining);
        ser.output.reserve(reservation);
        if self.remaining == 0 {
            return Err(Error::BadSeqLength);
        }
        self.remaining = self.remaining - 1;
        match serialize_value(&mut ser.output, v) {
            Err(e) => Err(e),
            Ok(()) => Ok(()),
        }
    }

    /// Finish the array: every declared element must have been written.
    pub fn end(self) -> (r: Result<(), Error>)
        ensures
            r matches Ok(()) <==> self.remaining == 0,
            r matches Err(e) ==> e is BadSeqLength,
    {
        if self.remaining == 0 {
            Ok(())
        } else {
            Err(Error::BadSeqLength)
        }
    }
}

/// The encoder for the failure arm of a result: it accepts only payloads
/// an error reply can carry, and rejects every other shape.
pub struct SerializeResultError;

impl SerializeResultError {
    /// An encoder for one failure payload.
    pub fn new() -> (r: Self) {
        SerializeResultError
    }

    /// Encode a byte-string payload as the error reply.
    pub fn serialize_bytes<O: Output>(self, output: &mut O, v: &[u8]) -> (r: Result<(), Error>)
        ensures
            !line_safe(v@) ==> (r matches Err(e) && e is BadSimpleString),
            r matches Ok(()) ==> line_safe(v@) && final(output).contents() == old(output).contents() + wire_error(v@),
            O::reliable() && line_safe(v@) ==> r is Ok,
    {
        serialize_error(output, v)
    }

    /// Encode a named unit-like tag as an error reply holding its name.
    pub fn serialize_unit_variant<O: Output>(self, output: &mut O, variant: &[u8]) -> (r: Result<
        (),
        Error,
    >)
        ensures
            !line_safe(variant@) ==> (r matches Err(e) && e is BadSimpleString),
            r matches Ok(()) ==> line_safe(variant@) && final(output).contents() == old(output).contents() + wire_error(variant@),
            O::reliable() && line_safe(variant@) ==> r is Ok,
    {
        serialize_error(output, variant)
    }

    /// A boolean is no valid failure payload.
    pub fn serialize_bool(self, _v: bool) -> (r: Result<(), Error>)
        ensures
            r matches Err(e) && e is InvalidErrorPayload,
    {
        Err(Error::InvalidErrorPayload)
    }

    /// An integer is no valid failure payload.
    pub fn serialize_i64(self, _v: i64) -> (r: Result<(), Error>)
        ensures
            r matches Err(e) && e is InvalidErrorPayload,
    {
        Err(Error::InvalidErrorPayload)
    }

    /// An unsigned integer is no valid failure payload.
    pub fn serialize_u64(self, _v: u64) -> (r: Result<(), Error>)
        ensures
            r matches Err(e) && e is InvalidErrorPayload,
    {
        Err(Error::InvalidErrorPayload)
    }

    /// An absent option is no valid failure payload.
    pub fn serialize_none(self) -> (r: Result<(), Error>)
        ensures
            r matches Err(e) && e is InvalidErrorPayload,
    {
        Err(Error::InvalidErrorPayload)
    }

    /// A present option is no valid failure payload.
    pub fn serialize_some(self, _v: &Value) -> (r: Result<(), Error>)
        ensures
            r matches Err(e) && e is InvalidErrorPayload,
    {
        Err(Error::InvalidErrorPayload)
    }

    /// A unit is no valid failure payload.
    pub fn serialize_unit(self) -> (r: Result<(), Error>)
        ensures
            r matches Err(e) && e is InvalidErrorPayload,
    {
        Err(Error::InvalidErrorPayload)
    }

    /// A sequence is no valid failure payload.
    pub fn serialize_seq(self, _len: Option<usize>) -> (r: Result<(), Error>)
        ensures
            r matches Err(e) && e is InvalidErrorPayload,
    {
        Err(Error::InvalidErrorPayload)
    }
}

/// The public RESP encoder: a [`BaseSerializer`] fixed to the default
/// mode, in which a bare unit is written as null.
pub struct Serializer<O: Output> {
    /// The mode-carrying encoder this one forwards to.
    inner: BaseSerializer<O>,
}

impl<O: Output> Serializer<O> {
    /// The bytes written to the destination so far.
    pub closed spec fn written(&self) -> Seq<u8> {
        self.inner.written()
    }

    /// An encoder that writes the encoded data to `writer`.
    pub fn new(writer: O) -> (r: Self)
        ensures
            r.written() == writer.contents(),
    {
        Serializer { inner: BaseSerializer::new(writer) }
    }

    /// Give the destination back.
    pub fn into_output(self) -> (r: O)
        ensures
            r.contents() == self.written(),
    {
        self.inner.into_output()
    }

    /// Encode one complete value.
    pub fn serialize_value(&mut self, v: &Value) -> (r: Result<(), Error>)
        ensures
            r matches Ok(()) ==> final(self).written() == old(self).written() + wire_of(v@),
            O::reliable() && encodable(v@) ==> r is Ok,
    {
        serialize_value(&mut self.inner.output, v)
    }

    /// Encode a boolean as the integer 1 or 0.
    pub fn serialize_bool(&mut self, v: bool) -> (r: Result<(), Error>)
        ensures
            r matches Ok(()) ==> final(self).written() == old(self).written() + wire_of(
                ValueModel::Int(if v { 1int } else { 0int }),
            ),
            O::reliable() ==> r is Ok,
    {
        self.inner.serialize_bool(v)
    }

    /// Encode a byte string as a bulk string.
    pub fn serialize_bytes(&mut self, v: &[u8]) -> (r: Result<(), Error>)
        ensures
            r matches Ok(()) ==> final(self).written() == old(self).written() + wire_bulk(v@),
            O::reliable() && v@.len() <= i64::MAX ==> r is Ok,
    {
        self.inner.serialize_bytes(v)
    }

    /// Encode the success arm of a result.
    pub fn serialize_result_ok(&mut self, v: &Value) -> (r: Result<(), Error>)
        ensures
            r matches Ok(()) ==> final(self).written() == old(self).written() + (if v@ is Null {
                ok_line()
            } else {
                wire_of(v@)
            }),
            O::reliable() && encodable(v@) ==> r is Ok,
    {
        self.inner.serialize_result_ok(v)
    }

    /// Encode the failure arm of a result.
    pub fn serialize_result_err(&mut self, payload: &[u8]) -> (r: Result<(), Error>)
        ensures
            !line_safe(payload@) ==> (r matches Err(e) && e is BadSimpleString && final(self).written() == old(self).written()),
            r matches Ok(()) ==> line_safe(payload@) && final(self).written() == old(self).written() + wire_error(payload@),
            O::reliable() && line_safe(payload@) ==> r is Ok,
    {
        self.inner.serialize_result_err(payload)
    }
}

} // verus!
