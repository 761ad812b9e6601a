//! The byte-level emitters the encoder is built from: decimal rendering,
//! headers, bulk strings and error replies.

use vstd::prelude::*;
use vstd::slice::*;

use crate::ser::output::Output;
use crate::ser::Error;
use crate::wire::{crlf, dec_int, dec_u, line_safe, wire_bulk, wire_error, CR, LF};

verus! {

broadcast use vstd::std_specs::vec::group_vec_axioms;

/// A reversed run of digits grows one digit at a time.
proof fn lemma_reverse_push(s: Seq<u8>, b: u8)
    ensures
        s.push(b).reverse() =~= seq![b] + s.reverse(),
{
}

/// Render the magnitude digits of a number, least significant first, into
/// `digits`.
fn push_digits_reversed(value: u64, digits: &mut Vec<u8>) -> (r: ())
    requires
        old(digits)@.len() == 0,
    ensures
        final(digits)@.reverse() == dec_u(value as nat),
{
    let ghost mag0 = value as nat;
    let mut mag: u64 = value;
    let d0: u8 = (mag % 10) as u8 + 48;
    digits.push(d0);
    mag = mag / 10;
    proof {
        assert(Seq::<u8>::empty().push(d0).reverse() =~= seq![d0]);
        if mag == 0 {
            assert(dec_u(mag0) == seq![d0]);
        }
    }
    while mag > 0
        invariant
            if mag > 0 {
                dec_u(mag0) == dec_u(mag as nat) + digits@.reverse()
            } else {
                dec_u(mag0) == digits@.reverse()
            },
        decreases mag,
    {
        let d: u8 = (mag % 10) as u8 + 48;
        let ghost before = digits@;
        digits.push(d);
        proof {
            lemma_reverse_push(before, d);
            if mag >= 10 {
                assert(dec_u(mag as nat) == dec_u((mag as nat) / 10) + seq![d]);
                assert(dec_u((mag as nat) / 10) + (seq![d] + before.reverse()) =~= (dec_u(
                    (mag as nat) / 10,
                ) + seq![d]) + before.reverse());
            } else {
                assert(dec_u(mag as nat) == seq![d]);
                assert(seq![d] + before.reverse() =~= dec_u(mag as nat) + before.reverse());
            }
        }
        mag = mag / 10;
    }
}

/// Render an integer as ASCII decimal, most significant digit first, with a
/// leading `-` when negative.
pub fn format_i64(value: i64) -> (r: Vec<u8>)
    ensures
        r@ == dec_int(value as int),
{
    let negative = value < 0;
    let magnitude: u64 = if value >= 0 {
        value as u64
    } else {
        ((-(value + 1)) as u64) + 1
    };
    let mut digits: Vec<u8> = Vec::new();
    push_digits_reversed(magnitude, &mut digits);
    let mut out: Vec<u8> = Vec::new();
    if negative {
        out.push(45);
    }
    let ghost head = out@;
    let n = digits.len();
    let mut i: usize = 0;
    while i < n
        invariant
            0 <= i <= n,
            n == digits@.len(),
            out@ == head + digits@.reverse().take(i as int),
        decreases n - i,
    {
        let ghost before = out@;
        let b = *slice_index_get(digits.as_slice(), n - 1 - i);
        out.push(b);
        proof {
            assert(digits@.reverse()[i as int] == digits@[n - 1 - i]);
            assert(before.push(b) =~= head + digits@.reverse().take(i + 1));
        }
        i += 1;
    }
    proof {
        assert(digits@.reverse().take(n as int) =~= digits@.reverse());
        if negative {
            assert(out@ =~= seq![45u8] + dec_u(magnitude as nat));
        } else {
            assert(out@ =~= dec_u(magnitude as nat));
        }
    }
    out
}

/// How many bytes the decimal rendering of a number takes, sign included.
pub fn estimate_number_reservation(value: i64) -> (r: usize)
    ensures
        r == dec_int(value as int).len(),
{
    let rendered = format_i64(value);
    rendered.len()
}

/// Append a `\r\n` line terminator.
fn write_endline<O: Output>(output: &mut O) -> (r: Result<(), Error>)
    ensures
        r matches Ok(()) ==> final(output).contents() == old(output).contents() + crlf(),
        O::reliable() ==> r is Ok,
{
    let mut b: Vec<u8> = Vec::new();
    b.push(CR);
    b.push(LF);
    proof {
        assert(b@ =~= crlf());
    }
    output.write_bytes(b.as_slice())
}

/// Write a header: the prefix tag byte, a number rendered as decimal, and
/// the line terminator. Reserves room for the header plus `suffix_reserve`
/// further bytes.
pub fn serialize_header<O: Output>(
    output: &mut O,
    prefix: u8,
    value: i64,
    suffix_reserve: usize,
) -> (r: Result<(), Error>)
    ensures
        r matches Ok(()) ==> final(output).contents() == old(output).contents() + seq![prefix]
            + dec_int(value as int) + crlf(),
        O::reliable() ==> r is Ok,
{
    let number_width = estimate_number_reservation(value);
    let width = if number_width > usize::MAX - 3 {
        usize::MAX
    } else if number_width + 3 > usize::MAX - suffix_reserve {
        usize::MAX
    } else {
        number_width + 3 + suffix_reserve
    };
    output.reserve(width);
    let mut header: Vec<u8> = Vec::new();
    header.push(prefix);
    let mut digits = format_i64(value);
    header.append(&mut digits);
    proof {
        assert(header@ =~= seq![prefix] + dec_int(value as int));
    }
    match output.write_bytes(header.as_slice()) {
        Err(e) => {
            return Err(e);
        },
        Ok(()) => {},
    }
    let r = write_endline(output);
    proof {
        if r is Ok {
            assert(old(output).contents() + (seq![prefix] + dec_int(value as int)) + crlf()
                =~= old(output).contents() + seq![prefix] + dec_int(value as int) + crlf());
        }
    }
    r
}

/// Write a plain integer reply: a `:` header.
pub fn serialize_number<O: Output>(output: &mut O, value: i64) -> (r: Result<(), Error>)
    ensures
        r matches Ok(()) ==> final(output).contents() == old(output).contents() + seq![58u8]
            + dec_int(value as int) + crlf(),
        O::reliable() ==> r is Ok,
{
    serialize_header(output, 58, value, 0)
}

/// How many bytes to reserve for an array of `len` elements: six per
/// element, the size of the smallest bulk string. A hint only.
pub fn estimate_array_reservation(len: usize) -> (r: usize)
    ensures
        r == if len * 6 > usize::MAX {
            usize::MAX as int
        } else {
            len * 6
        },
{
    if len > usize::MAX / 6 {
        usize::MAX
    } else {
        len * 6
    }
}

/// Write the header of an array of `len` elements; RESP expects exactly
/// that many values to follow.
pub fn serialize_array_header<O: Output>(output: &mut O, len: usize) -> (r: Result<(), Error>)
    requires
        len <= i64::MAX,
    ensures
        r matches Ok(()) ==> final(output).contents() == old(output).contents() + seq![42u8]
            + dec_int(len as int) + crlf(),
        O::reliable() ==> r is Ok,
{
    let reservation = estimate_array_reservation(len);
    serialize_header(output, 42, len as i64, reservation)
}

/// Write a bulk string: a `$` header declaring the length, the payload,
/// and the line terminator.
pub fn serialize_bulk_string<O: Output>(output: &mut O, value: &[u8]) -> (r: Result<(), Error>)
    requires
        value@.len() <= i64::MAX,
    ensures
        r matches Ok(()) ==> final(output).contents() == old(output).contents() + wire_bulk(
            value@,
        ),
        O::reliable() ==> r is Ok,
{
    let len = value.len();
    let suffix = if len > usize::MAX - 2 {
        usize::MAX
    } else {
        len + 2
    };
    match serialize_header(output, 36, len as i64, suffix) {
        Err(e) => {
            return Err(e);
        },
        Ok(()) => {},
    }
    match output.write_bytes(value) {
        Err(e) => {
            return Err(e);
        },
        Ok(()) => {},
    }
    let r = write_endline(output);
    proof {
        if r is Ok {
            assert(old(output).contents() + seq![36u8] + dec_int(value@.len() as int) + crlf()
                + value@ + crlf() =~= old(output).contents() + wire_bulk(value@));
        }
    }
    r
}

/// Whether the payload holds a CR or LF byte, which a single-line reply
/// cannot carry.
pub fn has_newline(data: &[u8]) -> (r: bool)
    ensures
        r == !line_safe(data@),
{
    let len = data.len();
    let mut i: usize = 0;
    while i < len
        invariant
            0 <= i <= len,
            len == data@.len(),
            forall|j: int| 0 <= j < i ==> data@[j] != CR && data@[j] != LF,
        decreases len - i,
    {
        let b = *slice_index_get(data, i);
        if b == CR || b == LF {
            return true;
        }
        i += 1;
    }
    false
}

/// Write an error reply: `-`, the single-line message, and the line
/// terminator. A message holding a CR or LF byte is rejected with
/// [`Error::BadSimpleString`] since error replies are single-line.
pub fn serialize_error<O: Output>(output: &mut O, value: &[u8]) -> (r: Result<(), Error>)
    ensures
        !line_safe(value@) ==> (r matches Err(e) && e is BadSimpleString && final(output).contents() == old(output).contents()),
        r matches Ok(()) ==> line_safe(value@) && final(output).contents() == old(output).contents() + wire_error(value@),
        O::reliable() && line_safe(value@) ==> r is Ok,
{
    if has_newline(value) {
        return Err(Error::BadSimpleString);
    }
    let reservation = if value.len() > usize::MAX - 3 {
        usize::MAX
    } else {
        value.len() + 3
    };
    output.reserve(reservation);
    let mut dash: Vec<u8> = Vec::new();
    dash.push(45);
    match output.write_bytes(dash.as_slice()) {
        Err(e) => {
            return Err(e);
        },
        Ok(()) => {},
    }
    match output.write_bytes(value) {
        Err(e) => {
            return Err(e);
        },
        Ok(()) => {},
    }
    let r = write_endline(output);
    proof {
        if r is Ok {
            assert(old(output).contents() + seq![45u8] + value@ + crlf() =~= old(output).contents() + wire_error(value@));
        }
    }
    r
}

} // verus!
