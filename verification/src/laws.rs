//! The laws of the codec: proofs that decoding undoes encoding.
//!
//! The central theorem is [`lemma_round_trip`]: decoding the wire bytes of
//! any bounded value, with arbitrary data behind them, yields exactly that
//! value and consumes exactly its bytes. [`lemma_pipelining`] extends it to
//! two values encoded back to back, and [`lemma_bulk_length_ceiling`] shows
//! that a bulk string declaring more than 512 MiB is rejected outright.

use vstd::prelude::*;

use crate::de::parse::{spec_read_header, HeaderModel};
use crate::de::{spec_decode_elems, spec_decode_value, spec_from_bytes, ErrorModel};
use crate::parse::{is_newline, spec_find_newline, spec_read_exact, Error};
use crate::value::ValueModel;
use crate::wire::{all_bounded, all_digits, bounded, crlf, dec_int, dec_u, digits_val, is_digit,
    lemma_all_bounded_index, line_safe, number_body, number_sign, number_val, spec_parse_number,
    valid_number, wire_bulk, wire_error, wire_null, wire_of, wire_seq, CR};
use crate::ser::ok_line;
use crate::MAX_BULK_LENGTH;

verus! {

/// The decimal rendering of a natural number is a non-empty run of digits
/// whose value is that number.
pub proof fn lemma_dec_u(n: nat)
    ensures
        all_digits(dec_u(n)),
        digits_val(dec_u(n)) == n,
        dec_u(n).len() >= 1,
    decreases n,
{
    if n < 10 {
        let s = dec_u(n);
        assert(s.drop_last() =~= Seq::<u8>::empty());
        assert(digits_val(Seq::<u8>::empty()) == 0);
        assert(s.last() == (48 + n) as u8);
    } else {
        lemma_dec_u(n / 10);
        let s = dec_u(n);
        assert(s.drop_last() =~= dec_u(n / 10));
        assert(s.last() == (48 + n % 10) as u8);
        assert forall|i: int| 0 <= i < s.len() implies is_digit(s[i]) by {
            if i < s.len() - 1 {
                assert(s[i] == dec_u(n / 10)[i]);
            }
        }
    }
}

/// Parsing undoes decimal rendering: the rendered form of any number in
/// the signed 64-bit range parses back to that number, and holds no CR,
/// LF or further sign byte.
pub proof fn lemma_parse_dec_int(n: int)
    requires
        i64::MIN <= n <= i64::MAX,
    ensures
        spec_parse_number(dec_int(n)) == Some(n as i64),
        line_safe(dec_int(n)),
        dec_int(n).len() >= 1,
{
    let s = dec_int(n);
    if n < 0 {
        lemma_dec_u((-n) as nat);
        assert(s == seq![45u8] + dec_u((-n) as nat));
        assert(s[0] == 45);
        assert(s.skip(1) =~= dec_u((-n) as nat));
        assert(number_body(s) == dec_u((-n) as nat));
        assert(number_sign(s) == -1);
        assert(number_val(s) == n);
        assert forall|i: int| 0 <= i < s.len() implies s[i] != CR && s[i] != crate::wire::LF by {
            if i > 0 {
                assert(s[i] == dec_u((-n) as nat)[i - 1]);
                assert(is_digit(s[i]));
            }
        }
    } else {
        lemma_dec_u(n as nat);
        assert(s == dec_u(n as nat));
        assert(is_digit(s[0]));
        assert(number_body(s) == s);
        assert(number_sign(s) == 1);
        assert(number_val(s) == n);
        assert forall|i: int| 0 <= i < s.len() implies s[i] != CR && s[i] != crate::wire::LF by {
            assert(is_digit(s[i]));
        }
    }
}

/// The first CR or LF of a line followed by its terminator stands exactly
/// at the end of the line.
pub proof fn lemma_find_newline_append(p: Seq<u8>, tail: Seq<u8>)
    requires
        line_safe(p),
        tail.len() > 0,
        is_newline(tail[0]),
    ensures
        spec_find_newline(p + tail) == Some(p.len() as int),
    decreases p.len(),
{
    let s = p + tail;
    if p.len() == 0 {
        assert(s =~= tail);
    } else {
        assert(s[0] == p[0]);
        assert(!is_newline(s[0]));
        lemma_find_newline_append(p.skip(1), tail);
        assert(s.skip(1) =~= p.skip(1) + tail);
    }
}

/// Reading the header of a tagged line whose payload is CR- and LF-free
/// finds exactly that payload and interprets the tag on it.
pub proof fn lemma_line_header(tag: u8, payload: Seq<u8>, rest: Seq<u8>)
    requires
        line_safe(payload),
    ensures
        spec_read_header(seq![tag] + payload + crlf() + rest) == crate::de::parse::spec_header_of(
            tag,
            payload,
            payload.len() as int + 3,
        ),
{
    let s = seq![tag] + payload + crlf() + rest;
    assert(s.len() > 0);
    assert(s[0] == tag);
    let r1 = s.skip(1);
    assert(r1 =~= payload + (crlf() + rest));
    assert(is_newline((crlf() + rest)[0]));
    lemma_find_newline_append(payload, crlf() + rest);
    let idx = payload.len() as int;
    assert(spec_find_newline(r1) == Some(idx));
    assert(r1.skip(idx) =~= crlf() + rest);
    assert(r1.skip(idx)[0] == CR);
    assert(r1.skip(idx)[1] == crate::wire::LF);
    assert(crate::parse::spec_read_endline(r1.skip(idx)) is Ok);
    assert(r1.take(idx) =~= payload);
}

/// The bare success line parses as the simple string `OK`.
pub proof fn lemma_plain_ok_header(rest: Seq<u8>)
    ensures
        spec_read_header(ok_line() + rest) == Ok::<_, Error>((
            HeaderModel::SimpleString(seq![79u8, 75u8]),
            5int,
        )),
{
    let payload = seq![79u8, 75u8];
    lemma_line_header(43, payload, rest);
    assert(ok_line() + rest =~= seq![43u8] + payload + crlf() + rest);
}

/// An encoded error reply parses as an error header carrying exactly its
/// message.
pub proof fn lemma_error_header(message: Seq<u8>, rest: Seq<u8>)
    requires
        line_safe(message),
    ensures
        spec_read_header(wire_error(message) + rest) == Ok::<_, Error>((
            HeaderModel::Error(message),
            message.len() as int + 3,
        )),
{
    lemma_line_header(45, message, rest);
    assert(wire_error(message) + rest =~= seq![45u8] + message + crlf() + rest);
}

/// Round trip: decoding the wire bytes of any bounded value, whatever data
/// follows them, yields exactly that value and consumes exactly its bytes.
#[verifier::rlimit(50)]
pub proof fn lemma_round_trip(v: ValueModel, rest: Seq<u8>)
    requires
        bounded(v),
    ensures
        spec_decode_value(wire_of(v) + rest) == Ok::<_, ErrorModel>((
            v,
            wire_of(v).len() as int,
        )),
    decreases v, 1int,
{
    let s = wire_of(v) + rest;
    match v {
        ValueModel::Int(i) => {
            lemma_parse_dec_int(i);
            lemma_line_header(58, dec_int(i), rest);
            assert(s =~= seq![58u8] + dec_int(i) + crlf() + rest);
            let k = dec_int(i).len() as int + 3;
            assert(spec_read_header(s) == Ok::<_, Error>((HeaderModel::Integer(i), k as int)));
            assert(1 <= k <= s.len());
        },
        ValueModel::Null => {
            let payload = seq![45u8, 49u8];
            assert(line_safe(payload));
            lemma_line_header(36, payload, rest);
            assert(s =~= seq![36u8] + payload + crlf() + rest);
            assert(number_body(payload) =~= seq![49u8]);
            assert(digits_val(seq![49u8]) == 1) by {
                assert(seq![49u8].drop_last() =~= Seq::<u8>::empty());
                assert(digits_val(Seq::<u8>::empty()) == 0);
            }
            assert(number_val(payload) == -1);
            assert(valid_number(payload));
            assert(spec_parse_number(payload) == Some(-1i64));
            assert(spec_read_header(s) == Ok::<_, Error>((HeaderModel::Null, 5int)));
            assert(1 <= 5 <= s.len());
        },
        ValueModel::Bytes(b) => {
            let len = b.len() as int;
            lemma_parse_dec_int(len);
            lemma_line_header(36, dec_int(len), b + crlf() + rest);
            assert(s =~= seq![36u8] + dec_int(len) + crlf() + (b + crlf() + rest));
            let k = dec_int(len).len() as int + 3;
            assert(spec_read_header(s) == Ok::<_, Error>((HeaderModel::BulkString(len), k)));
            assert(1 <= k <= s.len());
            let after = s.skip(k);
            assert(after =~= b + crlf() + rest);
            assert(after.skip(len) =~= crlf() + rest);
            assert(after.skip(len)[0] == CR);
            assert(after.skip(len)[1] == crate::wire::LF);
            assert(after.take(len) =~= b);
            assert(spec_read_exact(len, after) == Ok::<_, Error>((b, len + 2)));
            assert(wire_of(v).len() == k + len + 2);
        },
        ValueModel::List(vs) => {
            let len = vs.len() as int;
            lemma_parse_dec_int(len);
            lemma_line_header(42, dec_int(len), wire_seq(vs) + rest);
            assert(s =~= seq![42u8] + dec_int(len) + crlf() + (wire_seq(vs) + rest));
            let k = dec_int(len).len() as int + 3;
            assert(spec_read_header(s) == Ok::<_, Error>((HeaderModel::Array(len), k)));
            assert(1 <= k <= s.len());
            let after = s.skip(k);
            assert(after =~= wire_seq(vs) + rest);
            lemma_elems_round_trip(vs, rest);
            assert(spec_decode_elems(after, len) == Ok::<_, (ErrorModel, int)>((
                wire_seq(vs).len() as int,
                vs,
            )));
            assert(wire_of(v).len() == k + wire_seq(vs).len());
        },
    }
}

/// Round trip for the elements of an array: decoding as many values as the
/// run holds consumes exactly its bytes and yields its values in order.
pub proof fn lemma_elems_round_trip(vs: Seq<ValueModel>, rest: Seq<u8>)
    requires
        all_bounded(vs),
    ensures
        spec_decode_elems(wire_seq(vs) + rest, vs.len() as int) == Ok::<_, (ErrorModel, int)>((
            wire_seq(vs).len() as int,
            vs,
        )),
    decreases vs, 0int,
{
    let s = wire_seq(vs) + rest;
    if vs.len() == 0 {
        assert(wire_seq(vs) == Seq::<u8>::empty());
        assert(vs =~= Seq::<ValueModel>::empty());
    } else {
        let head = vs[0];
        let tail = vs.skip(1);
        lemma_all_bounded_index(vs, 0);
        assert(s =~= wire_of(head) + (wire_seq(tail) + rest));
        lemma_round_trip(head, wire_seq(tail) + rest);
        let k = wire_of(head).len() as int;
        crate::de::lemma_decode_consumed(s);
        assert(1 <= k <= s.len());
        assert(s.skip(k) =~= wire_seq(tail) + rest);
        lemma_elems_round_trip(tail, rest);
        assert(seq![head] + tail =~= vs);
        assert(wire_seq(vs).len() == k + wire_seq(tail).len());
    }
}

/// Decoding exactly the wire bytes of a bounded value, with nothing behind
/// them, yields that value with no complaint of trailing data.
pub proof fn lemma_from_bytes_round_trip(v: ValueModel)
    requires
        bounded(v),
    ensures
        spec_from_bytes(wire_of(v)) == Ok::<_, ErrorModel>(v),
{
    lemma_round_trip(v, Seq::empty());
    assert(wire_of(v) + Seq::<u8>::empty() =~= wire_of(v));
}

/// Pipelining: two values encoded back to back into one buffer decode in
/// order by two cursor decodes, which together consume the whole buffer.
pub proof fn lemma_pipelining(v1: ValueModel, v2: ValueModel)
    requires
        bounded(v1),
        bounded(v2),
    ensures
        spec_decode_value(wire_of(v1) + wire_of(v2)) == Ok::<_, ErrorModel>((
            v1,
            wire_of(v1).len() as int,
        )),
        spec_decode_value((wire_of(v1) + wire_of(v2)).skip(wire_of(v1).len() as int)) == Ok::<
            _,
            ErrorModel,
        >((v2, wire_of(v2).len() as int)),
{
    lemma_round_trip(v1, wire_of(v2));
    lemma_from_bytes_round_trip(v2);
    lemma_round_trip(v2, Seq::empty());
    assert((wire_of(v1) + wire_of(v2)).skip(wire_of(v1).len() as int) =~= wire_of(v2));
    assert(wire_of(v2) + Seq::<u8>::empty() =~= wire_of(v2));
}

/// A line with no CR or LF byte has no first newline.
pub proof fn lemma_find_newline_none(s: Seq<u8>)
    requires
        line_safe(s),
    ensures
        spec_find_newline(s) is None,
    decreases s.len(),
{
    if s.len() > 0 {
        assert(line_safe(s.skip(1))) by {
            assert(forall|j: int| 0 <= j < s.skip(1).len() ==> s.skip(1)[j] == s[j + 1]);
        }
        lemma_find_newline_none(s.skip(1));
    }
}

/// The truncated-input report of a cut tagged line never asks for more
/// than the bytes that were cut away: three of an empty buffer, two while
/// the line is unterminated, one once its CR has arrived.
pub proof fn lemma_line_header_truncated_exact(tag: u8, payload: Seq<u8>, j: int)
    requires
        line_safe(payload),
        0 <= j < payload.len() + 3,
    ensures
        spec_read_header((seq![tag] + payload + crlf()).take(j)) == Err::<
            (HeaderModel, int),
            _,
        >(Error::UnexpectedEof(
            if j == 0 {
                3usize
            } else if j <= payload.len() + 1 {
                2usize
            } else {
                1usize
            },
        )),
{
    let full = seq![tag] + payload + crlf();
    let s = full.take(j);
    if j == 0 {
        assert(s.len() == 0);
    } else if j <= payload.len() + 1 {
        assert(s[0] == tag);
        assert(s.skip(1) =~= payload.take(j - 1));
        assert(line_safe(payload.take(j - 1))) by {
            assert(forall|i: int| 0 <= i < j - 1 ==> payload.take(j - 1)[i] == payload[i]);
        }
        lemma_find_newline_none(payload.take(j - 1));
    } else {
        assert(j == payload.len() + 2);
        assert(s[0] == tag);
        assert(s.skip(1) =~= payload + seq![CR]);
        lemma_find_newline_append(payload, seq![CR]);
        let idx = payload.len() as int;
        assert(s.skip(1).skip(idx) =~= seq![CR]);
    }
}

/// For a scalar value — an integer, a byte string or null — the
/// truncated-input report is a sound retry threshold: it never asks for
/// more bytes than the encoding still owes, so supplying the reported
/// count, repeatedly if need be, reaches a successful decode without
/// running past the value. Array decodes enlarge their reports
/// conservatively and may overshoot, so they are excluded here.
pub proof fn lemma_truncation_bound(v: ValueModel, j: int)
    requires
        bounded(v),
        !(v is List),
        0 <= j < wire_of(v).len(),
    ensures
        spec_decode_value(wire_of(v).take(j)) matches Err(e) && (e matches ErrorModel::Parse(pe)
            && pe matches Error::UnexpectedEof(n) && 0 < n <= wire_of(v).len() - j),
{
    let w = wire_of(v);
    let s = w.take(j);
    match v {
        ValueModel::Int(i) => {
            lemma_parse_dec_int(i);
            assert(w =~= seq![58u8] + dec_int(i) + crlf());
            lemma_line_header_truncated_exact(58, dec_int(i), j);
        },
        ValueModel::Null => {
            let payload = seq![45u8, 49u8];
            assert(w =~= seq![36u8] + payload + crlf());
            lemma_line_header_truncated_exact(36, payload, j);
        },
        ValueModel::Bytes(b) => {
            let len = b.len() as int;
            lemma_parse_dec_int(len);
            let header = seq![36u8] + dec_int(len) + crlf();
            let hl = header.len() as int;
            assert(w =~= header + (b + crlf()));
            if j < hl {
                assert(s =~= header.take(j));
                lemma_line_header_truncated_exact(36, dec_int(len), j);
            } else {
                let x = (b + crlf()).take(j - hl);
                assert(s =~= seq![36u8] + dec_int(len) + crlf() + x);
                lemma_line_header(36, dec_int(len), x);
                assert(spec_read_header(s) == Ok::<_, Error>((
                    HeaderModel::BulkString(len),
                    hl,
                )));
                assert(1 <= hl <= s.len());
                assert(s.skip(hl) =~= x);
                if x.len() < len {
                    assert(crate::parse::sat_add_usize(len - x.len(), 2) == len - x.len() + 2);
                } else if x.len() == len {
                    assert(x.skip(len) =~= Seq::<u8>::empty());
                } else {
                    assert(x.len() == len + 1);
                    assert(x.skip(len) =~= seq![CR]);
                }
            }
        },
        ValueModel::List(_) => {},
    }
}

/// Truncation is detected: decoding any strict prefix of the wire bytes of
/// a bounded value fails with a truncated-input report asking for at least
/// one more byte. The reported count is a retry hint; for arrays it is a
/// conservative estimate, not a promise that exactly that many bytes
/// complete the value.
pub proof fn lemma_truncation_detected(v: ValueModel, j: int)
    requires
        bounded(v),
        0 <= j < wire_of(v).len(),
    ensures
        spec_decode_value(wire_of(v).take(j)) matches Err(e) && (e matches ErrorModel::Parse(pe)
            && pe matches Error::UnexpectedEof(n) && n > 0),
    decreases v, 1int,
{
    let w = wire_of(v);
    let s = w.take(j);
    match v {
        ValueModel::Int(i) => {
            lemma_parse_dec_int(i);
            assert(w =~= seq![58u8] + dec_int(i) + crlf());
            lemma_line_header_truncated_exact(58, dec_int(i), j);
        },
        ValueModel::Null => {
            let payload = seq![45u8, 49u8];
            assert(w =~= seq![36u8] + payload + crlf());
            lemma_line_header_truncated_exact(36, payload, j);
        },
        ValueModel::Bytes(b) => {
            let len = b.len() as int;
            lemma_parse_dec_int(len);
            let header = seq![36u8] + dec_int(len) + crlf();
            let hl = header.len() as int;
            assert(w =~= header + (b + crlf()));
            if j < hl {
                assert(s =~= header.take(j));
                assert(header =~= seq![36u8] + dec_int(len) + crlf());
                lemma_line_header_truncated_exact(36, dec_int(len), j);
            } else {
                let x = (b + crlf()).take(j - hl);
                assert(s =~= seq![36u8] + dec_int(len) + crlf() + x);
                lemma_line_header(36, dec_int(len), x);
                assert(spec_read_header(s) == Ok::<_, Error>((
                    HeaderModel::BulkString(len),
                    hl,
                )));
                assert(1 <= hl <= s.len());
                assert(s.skip(hl) =~= x);
                if x.len() < len {
                    assert(spec_read_exact(len, x) matches Err(e) && (e matches
                        Error::UnexpectedEof(n) && n > 0));
                } else if x.len() == len {
                    assert(x.skip(len) =~= Seq::<u8>::empty());
                } else {
                    assert(x.len() == len + 1);
                    assert(x.skip(len) =~= seq![CR]);
                }
            }
        },
        ValueModel::List(vs) => {
            let len = vs.len() as int;
            lemma_parse_dec_int(len);
            let header = seq![42u8] + dec_int(len) + crlf();
            let hl = header.len() as int;
            assert(w =~= header + wire_seq(vs));
            if j < hl {
                assert(s =~= header.take(j));
                lemma_line_header_truncated_exact(42, dec_int(len), j);
            } else {
                let x = wire_seq(vs).take(j - hl);
                assert(s =~= seq![42u8] + dec_int(len) + crlf() + x);
                lemma_line_header(42, dec_int(len), x);
                assert(spec_read_header(s) == Ok::<_, Error>((HeaderModel::Array(len), hl)));
                assert(1 <= hl <= s.len());
                assert(s.skip(hl) =~= x);
                lemma_elems_truncated(vs, j - hl);
            }
        },
    }
}

/// Truncation inside the elements of an array is detected: decoding the
/// declared count of values from a strict prefix of their wire bytes
/// fails with a truncated-input report.
pub proof fn lemma_elems_truncated(vs: Seq<ValueModel>, j: int)
    requires
        all_bounded(vs),
        0 <= j < wire_seq(vs).len(),
    ensures
        spec_decode_elems(wire_seq(vs).take(j), vs.len() as int) matches Err((e, rem)) && (e
            matches ErrorModel::Parse(pe) && pe matches Error::UnexpectedEof(n) && n > 0 && rem
            >= 0),
    decreases vs, 0int,
{
    let s = wire_seq(vs).take(j);
    assert(vs.len() > 0);
    let head = vs[0];
    let tail = vs.skip(1);
    lemma_all_bounded_index(vs, 0);
    let w0 = wire_of(head);
    let l0 = w0.len() as int;
    assert(wire_seq(vs) == w0 + wire_seq(tail));
    if j < l0 {
        assert(s =~= w0.take(j));
        lemma_truncation_detected(head, j);
    } else {
        let x = wire_seq(tail).take(j - l0);
        assert(s =~= w0 + x);
        lemma_round_trip(head, x);
        crate::de::lemma_decode_consumed(s);
        assert(1 <= l0 <= s.len());
        assert(s.skip(l0) =~= x);
        lemma_elems_truncated(tail, j - l0);
    }
}

/// Option round trip: an absent option encodes as the null sentinel, which
/// decodes back to the null value, so an option decode reports "absent"; a
/// present value encodes as itself and decodes back to itself, which is not
/// the null value, so an option decode reports it "present". The mapping of
/// null to "absent" is the contract of the option decode entry point.
pub proof fn lemma_option_round_trip(v: Option<ValueModel>, rest: Seq<u8>)
    requires
        v matches Some(inner) ==> bounded(inner) && !(inner is Null),
    ensures
        v is None ==> spec_decode_value(wire_null() + rest) == Ok::<_, ErrorModel>((
            ValueModel::Null,
            5int,
        )),
        v matches Some(inner) ==> spec_decode_value(wire_of(inner) + rest) == Ok::<
            _,
            ErrorModel,
        >((inner, wire_of(inner).len() as int)) && !(inner is Null),
{
    match v {
        None => {
            lemma_round_trip(ValueModel::Null, rest);
            assert(wire_of(ValueModel::Null) == wire_null());
        },
        Some(inner) => {
            lemma_round_trip(inner, rest);
        },
    }
}

/// Boolean round trip: a boolean encodes as the integer 1 or 0, whose wire
/// bytes decode back to that integer; the boolean decode entry point then
/// reinterprets exactly the integers 0 and 1 as the two booleans.
pub proof fn lemma_bool_round_trip(b: bool, rest: Seq<u8>)
    ensures
        spec_decode_value(wire_of(ValueModel::Int(if b { 1int } else { 0int })) + rest) == Ok::<
            _,
            ErrorModel,
        >((
            ValueModel::Int(if b { 1int } else { 0int }),
            wire_of(ValueModel::Int(if b { 1int } else { 0int })).len() as int,
        )),
{
    lemma_round_trip(ValueModel::Int(if b { 1int } else { 0int }), rest);
}

/// The success arm of a result carrying a proper value encodes as that
/// value, whose header is neither a simple string nor an error reply, so a
/// result decode delivers it inline through the ordinary decode path.
pub proof fn lemma_result_inline_header(v: ValueModel, rest: Seq<u8>)
    requires
        bounded(v),
        !(v is Null),
    ensures
        spec_read_header(wire_of(v) + rest) matches Ok((h, k)) && !(h is SimpleString) && !(h
            is Error),
{
    let s = wire_of(v) + rest;
    match v {
        ValueModel::Int(i) => {
            lemma_parse_dec_int(i);
            lemma_line_header(58, dec_int(i), rest);
            assert(s =~= seq![58u8] + dec_int(i) + crlf() + rest);
        },
        ValueModel::Bytes(b) => {
            let len = b.len() as int;
            lemma_parse_dec_int(len);
            lemma_line_header(36, dec_int(len), b + crlf() + rest);
            assert(s =~= seq![36u8] + dec_int(len) + crlf() + (b + crlf() + rest));
        },
        ValueModel::List(vs) => {
            let len = vs.len() as int;
            lemma_parse_dec_int(len);
            lemma_line_header(42, dec_int(len), wire_seq(vs) + rest);
            assert(s =~= seq![42u8] + dec_int(len) + crlf() + (wire_seq(vs) + rest));
        },
        ValueModel::Null => {},
    }
}

/// A bulk string header declaring any length over the 512 MiB ceiling is
/// rejected with a length error before its payload is touched.
pub proof fn lemma_bulk_length_ceiling(len: int, tail: Seq<u8>)
    requires
        MAX_BULK_LENGTH < len <= i64::MAX,
    ensures
        spec_decode_value(seq![36u8] + dec_int(len) + crlf() + tail) == Err::<
            (ValueModel, int),
            _,
        >(ErrorModel::Length),
{
    lemma_parse_dec_int(len);
    lemma_line_header(36, dec_int(len), tail);
    let s = seq![36u8] + dec_int(len) + crlf() + tail;
    assert(s =~= seq![36u8] + dec_int(len) + crlf() + tail);
    let k = dec_int(len).len() as int + 3;
    assert(spec_read_header(s) == Ok::<_, Error>((HeaderModel::BulkString(len), k)));
    assert(1 <= k <= s.len());
}

/// A bulk string of any length up to the ceiling decodes to exactly its
/// payload bytes: the bounded round trip, specialized to byte strings.
pub proof fn lemma_bulk_round_trip(payload: Seq<u8>, rest: Seq<u8>)
    requires
        payload.len() <= MAX_BULK_LENGTH,
    ensures
        spec_decode_value(wire_bulk(payload) + rest) == Ok::<_, ErrorModel>((
            ValueModel::Bytes(payload),
            wire_bulk(payload).len() as int,
        )),
{
    lemma_round_trip(ValueModel::Bytes(payload), rest);
}

} // verus!
