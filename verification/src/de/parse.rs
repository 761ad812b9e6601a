//! The RESP header parser.
//!
//! Every RESP value begins with a header: a tag byte, a single-line payload,
//! and `\r\n`. [`read_header`] turns that prefix into a [`TaggedHeader`] and
//! hands back the unconsumed remainder; for bulk strings and arrays the
//! header only declares how much data follows.

use vstd::prelude::*;
use vstd::slice::*;

pub use crate::parse::{read_exact, Error, ParseResult};
use crate::wire::spec_parse_number;
use crate::parse::{find_newline, lemma_find_newline, parse_number, read_endline,
    spec_find_newline, spec_read_endline};

verus! {

/// A parsed RESP header. Payloads borrow from the input buffer.
#[derive(Debug, Clone, Copy)]
pub enum TaggedHeader<'a> {
    /// `+`: a single-line string, used for trivial status replies.
    SimpleString(&'a [u8]),
    /// `-`: an error reply; the payload is the raw message.
    Error(&'a [u8]),
    /// `:`: a signed 64-bit integer.
    Integer(i64),
    /// `$`: a bulk string of the declared byte length.
    BulkString(i64),
    /// `*`: an array of the declared element count.
    Array(i64),
    /// A bulk string or array declaring the length -1: the null value.
    Null,
}

/// The mathematical model of a header, over `Seq` and `int`.
pub enum HeaderModel {
    /// Model of a simple string.
    SimpleString(Seq<u8>),
    /// Model of an error reply.
    Error(Seq<u8>),
    /// Model of an integer.
    Integer(int),
    /// Model of a bulk string header.
    BulkString(int),
    /// Model of an array header.
    Array(int),
    /// Model of the null sentinel.
    Null,
}

impl<'a> View for TaggedHeader<'a> {
    type V = HeaderModel;

    open spec fn view(&self) -> HeaderModel {
        match self {
            TaggedHeader::SimpleString(p) => HeaderModel::SimpleString(p@),
            TaggedHeader::Error(p) => HeaderModel::Error(p@),
            TaggedHeader::Integer(v) => HeaderModel::Integer(*v as int),
            TaggedHeader::BulkString(v) => HeaderModel::BulkString(*v as int),
            TaggedHeader::Array(v) => HeaderModel::Array(*v as int),
            TaggedHeader::Null => HeaderModel::Null,
        }
    }
}

/// What reading a header returns: the parsed header and the count of
/// consumed bytes, or the first error met. The payload line is read before
/// the tag byte is interpreted, so an unterminated line reports a truncated
/// input even when the tag is unknown.
pub open spec fn spec_read_header(s: Seq<u8>) -> Result<(HeaderModel, int), Error> {
    if s.len() == 0 {
        Err(Error::UnexpectedEof(3))
    } else {
        let rest = s.skip(1);
        match spec_find_newline(rest) {
            None => Err(Error::UnexpectedEof(2)),
            Some(idx) => match spec_read_endline(rest.skip(idx)) {
                Err(e) => Err(e),
                Ok(()) => spec_header_of(s[0], rest.take(idx), 1 + idx + 2),
            },
        }
    }
}

/// How a tag byte and its payload line make a header: `+` and `-` keep the
/// raw payload, `:`, `$` and `*` parse it as a number, and a `$` or `*`
/// length of exactly -1 collapses to null.
pub open spec fn spec_header_of(tag: u8, payload: Seq<u8>, consumed: int) -> Result<
    (HeaderModel, int),
    Error,
> {
    if tag == 43 {
        Ok((HeaderModel::SimpleString(payload), consumed))
    } else if tag == 45 {
        Ok((HeaderModel::Error(payload), consumed))
    } else if tag == 58 {
        match spec_parse_number(payload) {
            None => Err(Error::Number),
            Some(v) => Ok((HeaderModel::Integer(v as int), consumed)),
        }
    } else if tag == 36 {
        match spec_parse_number(payload) {
            None => Err(Error::Number),
            Some(v) => if v == -1 {
                Ok((HeaderModel::Null, consumed))
            } else {
                Ok((HeaderModel::BulkString(v as int), consumed))
            },
        }
    } else if tag == 42 {
        match spec_parse_number(payload) {
            None => Err(Error::Number),
            Some(v) => if v == -1 {
                Ok((HeaderModel::Null, consumed))
            } else {
                Ok((HeaderModel::Array(v as int), consumed))
            },
        }
    } else {
        Err(Error::BadTag(tag))
    }
}

/// A successfully read header consumes at least the three bytes of an empty
/// line and never more than the input.
pub proof fn lemma_read_header_consumed(s: Seq<u8>)
    ensures
        spec_read_header(s) matches Ok((h, k)) ==> 3 <= k <= s.len(),
{
    if s.len() > 0 {
        let rest = s.skip(1);
        lemma_find_newline(rest);
        match spec_find_newline(rest) {
            Some(idx) => {
                if spec_read_endline(rest.skip(idx)) is Ok {
                    assert(rest.skip(idx).len() >= 2);
                }
            },
            None => {},
        }
    }
}

/// Read a tag and its payload, followed by an endline.
pub fn read_header(input: &[u8]) -> (r: ParseResult<'_, TaggedHeader<'_>>)
    ensures
        match spec_read_header(input@) {
            Ok((h, k)) => r matches Ok((h2, rest)) && h2@ == h && rest@ == input@.skip(k),
            Err(e) => r matches Err(e2) && e2 == e,
        },
{
    let len = input.len();
    if len == 0 {
        return Err(Error::UnexpectedEof(3));
    }
    let tag = *slice_index_get(input, 0);
    let rest = slice_subrange(input, 1, len);
    let idx = match find_newline(rest) {
        None => {
            return Err(Error::UnexpectedEof(2));
        },
        Some(idx) => idx,
    };
    proof {
        lemma_find_newline(rest@);
    }
    let payload = slice_subrange(rest, 0, idx);
    let after = slice_subrange(rest, idx, rest.len());
    let tail = match read_endline(after) {
        Err(e) => {
            return Err(e);
        },
        Ok(((), tail)) => tail,
    };
    proof {
        assert(payload@ =~= rest@.take(idx as int));
        assert(after@ =~= rest@.skip(idx as int));
        assert(tail@ =~= input@.skip(1 + idx + 2));
    }
    match tag {
        43u8 => Ok((TaggedHeader::SimpleString(payload), tail)),
        45u8 => Ok((TaggedHeader::Error(payload), tail)),
        58u8 => match parse_number(payload) {
            Err(e) => Err(e),
            Ok(v) => Ok((TaggedHeader::Integer(v), tail)),
        },
        36u8 => match parse_number(payload) {
            Err(e) => Err(e),
            Ok(v) => if v == -1 {
                Ok((TaggedHeader::Null, tail))
            } else {
                Ok((TaggedHeader::BulkString(v), tail))
            },
        },
        42u8 => match parse_number(payload) {
            Err(e) => Err(e),
            Ok(v) => if v == -1 {
                Ok((TaggedHeader::Null, tail))
            } else {
                Ok((TaggedHeader::Array(v), tail))
            },
        },
        _ => Err(Error::BadTag(tag)),
    }
}

} // verus!
