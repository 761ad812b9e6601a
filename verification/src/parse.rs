//! Low-level RESP parsers: line terminators, header tags, exact-length
//! payloads and decimal numbers.
//!
//! Every parser consumes a prefix of its input and returns the unconsumed
//! remainder, so parsers compose and pipelined input is left untouched past
//! the first complete value. Each carries a contract phrased over the
//! specification functions defined here and in [`crate::wire`].

use vstd::prelude::*;
use vstd::slice::*;

use crate::wire::{digit_val, digits_val, is_digit, number_body, number_sign, number_val,
    spec_parse_number, valid_number, CR, LF};

verus! {

/// Parse errors that can occur while reading RESP data.
#[derive(Debug, Clone, Copy, PartialEq, Eq, Structural)]
pub enum Error {
    /// The input ended before the parse could complete; the payload is the
    /// minimum number of additional bytes needed before a retry can succeed.
    UnexpectedEof(usize),
    /// A line terminator was expected and was not exactly `\r\n`.
    MalformedNewline,
    /// A header began with a byte that is not one of the five RESP tags.
    BadTag(u8),
    /// A decimal number was malformed or out of the signed 64-bit range.
    Number,
}

/// The five RESP header tags.
#[derive(Debug, Clone, Copy, PartialEq, Eq, Structural)]
pub enum Tag {
    /// `+`: a single-line string.
    SimpleString,
    /// `-`: a single-line error message.
    Error,
    /// `:`: a signed 64-bit integer.
    Integer,
    /// `$`: a length-prefixed binary-safe string.
    BulkString,
    /// `*`: a length-prefixed sequence of values.
    Array,
}

/// The result of a parse: either an error, or the parsed value together with
/// the unconsumed tail of the input.
pub type ParseResult<'a, O> = Result<(O, &'a [u8]), Error>;

/// Whether a byte ends a line payload.
pub open spec fn is_newline(b: u8) -> bool {
    b == CR || b == LF
}

/// The index of the first CR or LF byte of `s`, if any.
pub open spec fn spec_find_newline(s: Seq<u8>) -> Option<int>
    decreases s.len(),
{
    if s.len() == 0 {
        None
    } else if is_newline(s[0]) {
        Some(0)
    } else {
        match spec_find_newline(s.skip(1)) {
            Some(i) => Some(i + 1),
            None => None,
        }
    }
}

/// What the first CR or LF position means: the byte there is a newline byte
/// and nothing before it is.
pub proof fn lemma_find_newline(s: Seq<u8>)
    ensures
        match spec_find_newline(s) {
            Some(i) => 0 <= i < s.len() && is_newline(s[i]) && forall|j: int|
                0 <= j < i ==> !is_newline(s[j]),
            None => forall|j: int| 0 <= j < s.len() ==> !is_newline(s[j]),
        },
    decreases s.len(),
{
    if s.len() != 0 && !is_newline(s[0]) {
        lemma_find_newline(s.skip(1));
        match spec_find_newline(s.skip(1)) {
            Some(i) => {
                assert(s.skip(1)[i] == s[i + 1]);
                assert forall|j: int| 0 <= j < i + 1 implies !is_newline(s[j]) by {
                    if j > 0 {
                        assert(s.skip(1)[j - 1] == s[j]);
                    }
                }
            },
            None => {
                assert forall|j: int| 0 <= j < s.len() implies !is_newline(s[j]) by {
                    if j > 0 {
                        assert(s.skip(1)[j - 1] == s[j]);
                    }
                }
            },
        }
    }
}

/// Find the first CR or LF byte of the input, scanning left to right.
pub fn find_newline(input: &[u8]) -> (r: Option<usize>)
    ensures
        match r {
            Some(i) => spec_find_newline(input@) == Some(i as int),
            None => spec_find_newline(input@) is None,
        },
{
    proof {
        lemma_find_newline(input@);
    }
    let len = input.len();
    let mut i: usize = 0;
    while i < len
        invariant
            0 <= i <= len,
            len == input@.len(),
            forall|j: int| 0 <= j < i ==> !is_newline(input@[j]),
            match spec_find_newline(input@) {
                Some(k) => 0 <= k < input@.len() && is_newline(input@[k]) && forall|j: int|
                    0 <= j < k ==> !is_newline(input@[j]),
                None => forall|j: int| 0 <= j < input@.len() ==> !is_newline(input@[j]),
            },
        decreases len - i,
    {
        let b = *slice_index_get(input, i);
        if b == CR || b == LF {
            return Some(i);
        }
        i += 1;
    }
    None
}

/// What reading a line terminator returns: nothing but the two consumed
/// bytes on `\r\n`, how many bytes are missing on a truncated terminator,
/// and a protocol error on anything else.
pub open spec fn spec_read_endline(s: Seq<u8>) -> Result<(), Error> {
    if s.len() >= 2 && s[0] == CR && s[1] == LF {
        Ok(())
    } else if s.len() == 1 && s[0] == CR {
        Err(Error::UnexpectedEof(1))
    } else if s.len() == 0 {
        Err(Error::UnexpectedEof(2))
    } else {
        Err(Error::MalformedNewline)
    }
}

/// Read a single `\r\n` from the input.
pub fn read_endline(input: &[u8]) -> (r: ParseResult<'_, ()>)
    ensures
        match spec_read_endline(input@) {
            Ok(()) => r matches Ok(((), rest)) && rest@ == input@.skip(2),
            Err(e) => r matches Err(e2) && e2 == e,
        },
{
    let len = input.len();
    if len >= 2 && *slice_index_get(input, 0) == CR && *slice_index_get(input, 1) == LF {
        Ok(((), slice_subrange(input, 2, len)))
    } else if len == 1 && *slice_index_get(input, 0) == CR {
        Err(Error::UnexpectedEof(1))
    } else if len == 0 {
        Err(Error::UnexpectedEof(2))
    } else {
        Err(Error::MalformedNewline)
    }
}

/// The tag named by a header byte, if any.
pub open spec fn spec_tag_of(b: u8) -> Option<Tag> {
    if b == 43 {
        Some(Tag::SimpleString)
    } else if b == 45 {
        Some(Tag::Error)
    } else if b == 58 {
        Some(Tag::Integer)
    } else if b == 36 {
        Some(Tag::BulkString)
    } else if b == 42 {
        Some(Tag::Array)
    } else {
        None
    }
}

/// What reading a tagged line returns: the tag, the payload up to the first
/// CR or LF, and the count of consumed bytes, or the first error met.
pub open spec fn spec_read_tag(s: Seq<u8>) -> Result<((Tag, Seq<u8>), int), Error> {
    if s.len() == 0 {
        Err(Error::UnexpectedEof(3))
    } else {
        match spec_tag_of(s[0]) {
            None => Err(Error::BadTag(s[0])),
            Some(tag) => {
                let rest = s.skip(1);
                match spec_find_newline(rest) {
                    None => Err(Error::UnexpectedEof(2)),
                    Some(idx) => match spec_read_endline(rest.skip(idx)) {
                        Err(e) => Err(e),
                        Ok(()) => Ok(((tag, rest.take(idx)), 1 + idx + 2)),
                    },
                }
            },
        }
    }
}

/// Read a tag and its payload, followed by an endline.
pub fn read_tag(input: &[u8]) -> (r: ParseResult<'_, (Tag, &[u8])>)
    ensures
        match spec_read_tag(input@) {
            Ok(((tag, payload), consumed)) => r matches Ok(((tag2, payload2), rest))
                && tag2 == tag && payload2@ == payload && rest@ == input@.skip(consumed),
            Err(e) => r matches Err(e2) && e2 == e,
        },
{
    let len = input.len();
    if len == 0 {
        return Err(Error::UnexpectedEof(3));
    }
    let tag_byte = *slice_index_get(input, 0);
    let tag = match tag_byte {
        43u8 => Tag::SimpleString,
        45u8 => Tag::Error,
        58u8 => Tag::Integer,
        36u8 => Tag::BulkString,
        42u8 => Tag::Array,
        _ => {
            return Err(Error::BadTag(tag_byte));
        },
    };
    let rest = slice_subrange(input, 1, len);
    match find_newline(rest) {
        None => Err(Error::UnexpectedEof(2)),
        Some(idx) => {
            proof {
                lemma_find_newline(rest@);
            }
            let payload = slice_subrange(rest, 0, idx);
            let after = slice_subrange(rest, idx, rest.len());
            match read_endline(after) {
                Err(e) => Err(e),
                Ok(((), tail)) => {
                    proof {
                        assert(payload@ =~= rest@.take(idx as int));
                        assert(after@ =~= rest@.skip(idx as int));
                        assert(tail@ =~= input@.skip(1 + idx + 2));
                    }
                    Ok(((tag, payload), tail))
                },
            }
        },
    }
}

/// Split the input at `idx`, if it is long enough.
pub fn try_split_at(input: &[u8], idx: usize) -> (r: Option<(&[u8], &[u8])>)
    ensures
        match r {
            Some((head, tail)) => idx <= input@.len() && head@ == input@.take(idx as int)
                && tail@ == input@.skip(idx as int),
            None => idx > input@.len(),
        },
{
    if idx <= input.len() {
        Some((slice_subrange(input, 0, idx), slice_subrange(input, idx, input.len())))
    } else {
        None
    }
}

/// The saturating sum of two non-negative quantities, capped at the largest
/// `usize` value.
pub open spec fn sat_add_usize(a: int, b: int) -> int {
    if a + b > usize::MAX {
        usize::MAX as int
    } else {
        a + b
    }
}

/// What reading an exact-length chunk returns: the `length` leading bytes
/// when they are all present and followed by `\r\n`, how many bytes are
/// missing otherwise.
pub open spec fn spec_read_exact(length: int, s: Seq<u8>) -> Result<(Seq<u8>, int), Error> {
    if length > s.len() {
        Err(Error::UnexpectedEof(sat_add_usize(length - s.len(), 2) as usize))
    } else {
        match spec_read_endline(s.skip(length)) {
            Err(e) => Err(e),
            Ok(()) => Ok((s.take(length), length + 2)),
        }
    }
}

/// Read a chunk of a specific length, followed by an endline.
pub fn read_exact(length: usize, input: &[u8]) -> (r: ParseResult<'_, &[u8]>)
    ensures
        match spec_read_exact(length as int, input@) {
            Ok((payload, consumed)) => r matches Ok((payload2, rest)) && payload2@ == payload
                && rest@ == input@.skip(consumed),
            Err(e) => r matches Err(e2) && e2 == e,
        },
{
    match try_split_at(input, length) {
        None => {
            let missing = length - input.len();
            let eof = if missing > usize::MAX - 2 {
                usize::MAX
            } else {
                missing + 2
            };
            Err(Error::UnexpectedEof(eof))
        },
        Some((payload, tail)) => match read_endline(tail) {
            Err(e) => Err(e),
            Ok(((), rest)) => {
                proof {
                    assert(rest@ =~= input@.skip(length as int + 2));
                }
                Ok((payload, rest))
            },
        },
    }
}

/// The numeric value of an ASCII digit byte, if it is one.
pub fn ascii_to_digit(b: u8) -> (r: Option<i64>)
    ensures
        r == if is_digit(b) {
            Some(digit_val(b) as i64)
        } else {
            None::<i64>
        },
{
    if 48 <= b && b <= 57 {
        Some((b - 48) as i64)
    } else {
        None
    }
}

/// A run of digits is never negative.
pub proof fn lemma_digits_val_nonneg(s: Seq<u8>)
    requires
        crate::wire::all_digits(s),
    ensures
        digits_val(s) >= 0,
    decreases s.len(),
{
    if s.len() > 0 {
        lemma_digits_val_nonneg(s.drop_last());
    }
}

/// Reading more digits never shrinks the value of the run.
pub proof fn lemma_digits_val_prefix(s: Seq<u8>, k: int)
    requires
        crate::wire::all_digits(s),
        0 <= k <= s.len(),
    ensures
        digits_val(s.take(k)) <= digits_val(s),
    decreases s.len(),
{
    if k == s.len() {
        assert(s.take(k) =~= s);
    } else {
        let dl = s.drop_last();
        lemma_digits_val_nonneg(dl);
        assert(s.take(k) =~= dl.take(k));
        lemma_digits_val_prefix(dl, k);
    }
}

/// Parse an optionally signed decimal number into a signed 64-bit integer,
/// rejecting payloads with no digits, with stray bytes, or out of range.
pub fn parse_number(payload: &[u8]) -> (r: Result<i64, Error>)
    ensures
        match spec_parse_number(payload@) {
            Some(v) => r == Ok::<i64, Error>(v),
            None => r == Err::<i64, Error>(Error::Number),
        },
{
    let ghost s = payload@;
    let len = payload.len();
    if len == 0 {
        return Err(Error::Number);
    }
    let first = *slice_index_get(payload, 0);
    let (start, positive): (usize, bool) = if first == 45 {
        (1, false)
    } else if first == 43 {
        (1, true)
    } else {
        (0, true)
    };
    let ghost body = number_body(s);
    let ghost sign = number_sign(s);
    proof {
        assert(body =~= s.skip(start as int));
        assert(sign == if positive { 1int } else { -1int });
    }
    if start == len {
        // A sign with no digits after it.
        return Err(Error::Number);
    }
    let mut accum: i64 = 0;
    let mut i: usize = start;
    while i < len
        invariant
            start <= i <= len,
            len == s.len(),
            s == payload@,
            body == number_body(s),
            sign == number_sign(s),
            body =~= s.skip(start as int),
            sign == if positive { 1int } else { -1int },
            crate::wire::all_digits(s.subrange(start as int, i as int)),
            accum == sign * digits_val(s.subrange(start as int, i as int)),
        decreases len - i,
    {
        let ghost pref = s.subrange(start as int, i as int);
        let ghost prefd = s.subrange(start as int, i as int + 1);
        proof {
            assert(prefd.drop_last() =~= pref);
        }
        let b = *slice_index_get(payload, i);
        let d = match ascii_to_digit(b) {
            Some(d) => d,
            None => {
                proof {
                    assert(body[i - start] == s[i as int]);
                    assert(!crate::wire::all_digits(body));
                }
                return Err(Error::Number);
            },
        };
        let sd: i64 = if positive {
            d
        } else {
            -d
        };
        let ghost vald = sign * digits_val(prefd);
        proof {
            assert(digits_val(prefd) == digits_val(pref) * 10 + digit_val(b));
            assert(vald == accum * 10 + sd) by (nonlinear_arith)
                requires
                    vald == sign * (digits_val(pref) * 10 + digit_val(b)),
                    accum == sign * digits_val(pref),
                    sd == sign * digit_val(b),
                    sign == 1 || sign == -1,
            ;
        }
        let a2 = match accum.checked_mul(10) {
            Some(a) => a,
            None => {
                proof {
                    lemma_digits_val_nonneg(pref);
                    assert(!(i64::MIN <= accum * 10 + sd <= i64::MAX));
                    overflow_out_of_range(s, start as int, i as int, accum * 10, sd as int);
                }
                return Err(Error::Number);
            },
        };
        accum = match a2.checked_add(sd) {
            Some(a) => a,
            None => {
                proof {
                    overflow_out_of_range(s, start as int, i as int, a2 as int, sd as int);
                }
                return Err(Error::Number);
            },
        };
        proof {
            assert(s.subrange(start as int, i as int + 1) =~= prefd);
        }
        i += 1;
    }
    proof {
        assert(s.subrange(start as int, len as int) =~= body);
        assert(valid_number(s));
        assert(number_val(s) == accum);
    }
    Ok(accum)
}

/// When a digit step overflows, the full payload is out of range, so the
/// parse is owed no value.
proof fn overflow_out_of_range(s: Seq<u8>, start: int, i: int, a2: int, sd: int)
    requires
        0 <= start <= i < s.len(),
        number_body(s) =~= s.skip(start),
        crate::wire::all_digits(s.subrange(start, i)),
        is_digit(s[i]),
        sd == number_sign(s) * digit_val(s[i]),
        a2 == number_sign(s) * digits_val(s.subrange(start, i)) * 10,
        !(i64::MIN <= a2 + sd <= i64::MAX),
    ensures
        spec_parse_number(s) is None,
{
    let body = number_body(s);
    let sign = number_sign(s);
    let prefd = s.subrange(start, i + 1);
    assert(prefd.drop_last() =~= s.subrange(start, i));
    assert(digits_val(prefd) == digits_val(s.subrange(start, i)) * 10 + digit_val(s[i]));
    assert(sign * digits_val(prefd) == a2 + sd) by (nonlinear_arith)
        requires
            digits_val(prefd) == digits_val(s.subrange(start, i)) * 10 + digit_val(s[i]),
            a2 == sign * digits_val(s.subrange(start, i)) * 10,
            sd == sign * digit_val(s[i]),
            sign == 1 || sign == -1,
    ;
    if crate::wire::all_digits(body) {
        assert(prefd =~= body.take(i + 1 - start));
        lemma_digits_val_prefix(body, i + 1 - start);
        lemma_digits_val_nonneg(prefd);
        if sign == 1 {
            assert(number_val(s) >= a2 + sd);
        } else {
            assert(number_val(s) == -digits_val(body));
            assert(-digits_val(body) <= -digits_val(prefd));
        }
        assert(!(i64::MIN <= number_val(s) <= i64::MAX));
    }
}

} // verus!
