//! The RESP wire grammar, stated as specification functions.
//!
//! Everything the crate proves is phrased in terms of these functions:
//! [`dec_int`] is the ASCII decimal rendering of an integer, [`wire_of`] is
//! the exact byte encoding of a [`ValueModel`], and [`spec_parse_number`]
//! describes the decimal parser.

use vstd::prelude::*;

use crate::value::ValueModel;

verus! {

/// The carriage-return byte.
pub const CR: u8 = 13;
/// The line-feed byte.
pub const LF: u8 = 10;

/// The two-byte line terminator every RESP header and payload ends with.
pub open spec fn crlf() -> Seq<u8> {
    seq![CR, LF]
}

/// Whether a byte is an ASCII decimal digit.
pub open spec fn is_digit(b: u8) -> bool {
    48 <= b <= 57
}

/// The numeric value of an ASCII digit byte.
pub open spec fn digit_val(b: u8) -> int {
    b - 48
}

/// The ASCII decimal rendering of a natural number, most significant digit
/// first, with no sign and no leading zeros.
pub open spec fn dec_u(n: nat) -> Seq<u8>
    decreases n,
{
    if n < 10 {
        seq![(48 + n) as u8]
    } else {
        dec_u(n / 10) + seq![(48 + n % 10) as u8]
    }
}

/// The ASCII decimal rendering of an integer, with a leading `-` when
/// negative.
pub open spec fn dec_int(n: int) -> Seq<u8> {
    if n < 0 {
        seq![45u8] + dec_u((-n) as nat)
    } else {
        dec_u(n as nat)
    }
}

/// The value of a run of ASCII digits, most significant first.
pub open spec fn digits_val(s: Seq<u8>) -> int
    decreases s.len(),
{
    if s.len() == 0 {
        0
    } else {
        digits_val(s.drop_last()) * 10 + digit_val(s.last())
    }
}

/// Whether every byte of `s` is an ASCII digit.
pub open spec fn all_digits(s: Seq<u8>) -> bool {
    forall|i: int| 0 <= i < s.len() ==> is_digit(s[i])
}

/// The digit run of an optionally signed number: everything after a leading
/// `+` or `-`, or the whole payload when there is no sign.
pub open spec fn number_body(s: Seq<u8>) -> Seq<u8> {
    if s.len() > 0 && (s[0] == 43 || s[0] == 45) {
        s.skip(1)
    } else {
        s
    }
}

/// The sign of an optionally signed number: -1 for a leading `-`, else 1.
pub open spec fn number_sign(s: Seq<u8>) -> int {
    if s.len() > 0 && s[0] == 45 {
        -1
    } else {
        1
    }
}

/// The mathematical value of an optionally signed digit run.
pub open spec fn number_val(s: Seq<u8>) -> int {
    number_sign(s) * digits_val(number_body(s))
}

/// Whether a payload is a well-formed decimal number whose value fits a
/// signed 64-bit integer: an optional sign, then at least one digit, only
/// digits, value in range.
pub open spec fn valid_number(s: Seq<u8>) -> bool {
    &&& number_body(s).len() > 0
    &&& all_digits(number_body(s))
    &&& i64::MIN <= number_val(s) <= i64::MAX
}

/// What parsing a decimal number returns: the value for well-formed in-range
/// payloads, nothing otherwise.
pub open spec fn spec_parse_number(s: Seq<u8>) -> Option<i64> {
    if valid_number(s) {
        Some(number_val(s) as i64)
    } else {
        None
    }
}

/// The exact wire bytes of one value:
/// byte strings as bulk strings, integers with a `:` header, arrays with a
/// `*` header followed by each element, null as the `-1` bulk sentinel.
pub open spec fn wire_of(v: ValueModel) -> Seq<u8>
    decreases v, 1int, 0int,
{
    match v {
        ValueModel::Bytes(s) => wire_bulk(s),
        ValueModel::Int(i) => seq![58u8] + dec_int(i) + crlf(),
        ValueModel::List(vs) => seq![42u8] + dec_int(vs.len() as int) + crlf() + wire_seq(vs),
        ValueModel::Null => wire_null(),
    }
}

/// The wire bytes of the elements of an array, in order.
pub open spec fn wire_seq(vs: Seq<ValueModel>) -> Seq<u8>
    decreases vs, 0int, 0int,
{
    if vs.len() == 0 {
        Seq::empty()
    } else {
        wire_of(vs[0]) + wire_seq(vs.skip(1))
    }
}

/// Whether a value can be encoded at all: every byte string and every
/// array must be short enough for its length to be declared as a signed
/// 64-bit number.
pub open spec fn encodable(v: ValueModel) -> bool
    decreases v, 1int,
{
    match v {
        ValueModel::Bytes(s) => s.len() <= i64::MAX,
        ValueModel::Int(_) => true,
        ValueModel::Null => true,
        ValueModel::List(vs) => vs.len() <= i64::MAX && all_encodable(vs),
    }
}

/// Whether every value of a run is encodable.
pub open spec fn all_encodable(vs: Seq<ValueModel>) -> bool
    decreases vs, 0int,
{
    if vs.len() == 0 {
        true
    } else {
        encodable(vs[0]) && all_encodable(vs.skip(1))
    }
}

/// Whether a value stays within the wire's own limits: every byte string
/// and every array no longer than the 512 MiB ceiling, every integer in
/// the signed 64-bit range. Only such values decode back to themselves.
pub open spec fn bounded(v: ValueModel) -> bool
    decreases v, 1int,
{
    match v {
        ValueModel::Bytes(s) => s.len() <= crate::MAX_BULK_LENGTH,
        ValueModel::Int(i) => i64::MIN <= i <= i64::MAX,
        ValueModel::Null => true,
        ValueModel::List(vs) => vs.len() <= crate::MAX_BULK_LENGTH && all_bounded(vs),
    }
}

/// Whether every value of a run is bounded.
pub open spec fn all_bounded(vs: Seq<ValueModel>) -> bool
    decreases vs, 0int,
{
    if vs.len() == 0 {
        true
    } else {
        bounded(vs[0]) && all_bounded(vs.skip(1))
    }
}

/// Every value of a bounded run is bounded.
pub proof fn lemma_all_bounded_index(vs: Seq<ValueModel>, i: int)
    requires
        all_bounded(vs),
        0 <= i < vs.len(),
    ensures
        bounded(vs[i]),
    decreases vs.len(),
{
    if i > 0 {
        lemma_all_bounded_index(vs.skip(1), i - 1);
    }
}

/// An encodable run grows by one encodable value at a time.
pub proof fn lemma_all_encodable_extend(vs: Seq<ValueModel>, i: int)
    requires
        0 <= i < vs.len(),
        all_encodable(vs.take(i)),
        encodable(vs[i]),
    ensures
        all_encodable(vs.take(i + 1)),
    decreases vs.len(),
{
    assert(all_encodable(Seq::<ValueModel>::empty()));
    if i == 0 {
        assert(vs.take(1)[0] == vs[0]);
        assert(vs.take(1).skip(1) =~= Seq::<ValueModel>::empty());
    } else {
        let tail = vs.skip(1);
        assert(vs.take(i)[0] == vs[0]);
        assert(vs.take(i).skip(1) =~= tail.take(i - 1));
        assert(tail[i - 1] == vs[i]);
        lemma_all_encodable_extend(tail, i - 1);
        assert(vs.take(i + 1)[0] == vs[0]);
        assert(vs.take(i + 1).skip(1) =~= tail.take(i));
    }
}

/// Every value of an encodable run is encodable.
pub proof fn lemma_all_encodable_index(vs: Seq<ValueModel>, i: int)
    requires
        all_encodable(vs),
        0 <= i < vs.len(),
    ensures
        encodable(vs[i]),
    decreases vs.len(),
{
    if i > 0 {
        lemma_all_encodable_index(vs.skip(1), i - 1);
    }
}

/// The wire bytes of a run of values grow element by element.
pub proof fn lemma_wire_seq_take(vs: Seq<ValueModel>, i: int)
    requires
        0 <= i < vs.len(),
    ensures
        wire_seq(vs.take(i + 1)) == wire_seq(vs.take(i)) + wire_of(vs[i]),
    decreases vs.len(),
{
    if i == 0 {
        assert(vs.take(1)[0] == vs[0]);
        assert(vs.take(1).skip(1) =~= Seq::<ValueModel>::empty());
        assert(vs.take(0) =~= Seq::<ValueModel>::empty());
        assert(wire_seq(Seq::<ValueModel>::empty()) == Seq::<u8>::empty());
        assert(wire_seq(vs.take(1)) =~= wire_seq(vs.take(0)) + wire_of(vs[0]));
    } else {
        let tail = vs.skip(1);
        lemma_wire_seq_take(tail, i - 1);
        assert(vs.take(i + 1)[0] == vs[0]);
        assert(vs.take(i + 1).skip(1) =~= tail.take(i));
        assert(vs.take(i).skip(1) =~= tail.take(i - 1));
        assert(vs.take(i)[0] == vs[0]);
        assert(tail[i - 1] == vs[i]);
        assert(wire_seq(vs.take(i + 1)) == wire_of(vs[0]) + (wire_seq(tail.take(i - 1))
            + wire_of(vs[i])));
        assert(wire_of(vs[0]) + (wire_seq(tail.take(i - 1)) + wire_of(vs[i])) =~= (wire_of(vs[0])
            + wire_seq(tail.take(i - 1))) + wire_of(vs[i]));
    }
}

/// The wire bytes of a bulk string: `$`, the length, CRLF, the payload, CRLF.
pub open spec fn wire_bulk(s: Seq<u8>) -> Seq<u8> {
    seq![36u8] + dec_int(s.len() as int) + crlf() + s + crlf()
}

/// The wire bytes of the null sentinel: `$-1` and CRLF.
pub open spec fn wire_null() -> Seq<u8> {
    seq![36u8, 45u8, 49u8] + crlf()
}

/// The wire bytes of a simple string: `+`, the single-line payload, CRLF.
pub open spec fn wire_simple(s: Seq<u8>) -> Seq<u8> {
    seq![43u8] + s + crlf()
}

/// The wire bytes of an error reply: `-`, the single-line message, CRLF.
pub open spec fn wire_error(s: Seq<u8>) -> Seq<u8> {
    seq![45u8] + s + crlf()
}

/// Whether a payload may stand on a single line: it contains neither CR nor
/// LF, as simple strings and error replies require.
pub open spec fn line_safe(s: Seq<u8>) -> bool {
    forall|i: int| 0 <= i < s.len() ==> s[i] != CR && s[i] != LF
}

} // verus!
