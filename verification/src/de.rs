//! The RESP decoder.
//!
//! A [`Deserializer`] is a cursor over a borrowed byte buffer. Each decode
//! call consumes exactly one complete RESP value and advances the cursor
//! past it, so back-to-back calls read pipelined values in order. The
//! convenience function [`from_bytes`] decodes a single value and insists
//! the buffer holds nothing else.

pub mod parse;
pub mod result;

use vstd::prelude::*;
use vstd::slice::*;

use crate::parse::sat_add_usize;
use crate::value::{model_of, models_of, Value, ValueModel};
use crate::MAX_BULK_LENGTH;
use self::parse::{lemma_read_header_consumed, read_header, spec_read_header, HeaderModel,
    TaggedHeader};
use self::result::{ResultAccess, ResultModel};

verus! {

/// Errors that can occur while decoding RESP data.
#[derive(Debug, PartialEq, Eq)]
pub enum Error {
    /// There was an error during parsing, such as a truncated buffer or a
    /// malformed line terminator.
    Parse(crate::parse::Error),
    /// The length of an array or bulk string was out of bounds: negative
    /// without being the null sentinel, or over the 512 MiB ceiling.
    Length,
    /// The decode completed but did not consume the entire input; reported
    /// by [`from_bytes`] only, the cursor interface tolerates trailing data.
    TrailingData,
    /// An array decode stopped before the declared element count was
    /// consumed. The decoder here consumes declared counts itself, so it
    /// never reports this; it stands in the taxonomy for callers that
    /// drive element decoding on their own.
    UnfinishedArray,
    /// An error reported by the consumer of the decoded data.
    Custom(String),
    /// A RESP error reply was decoded outside of a result decode; its raw
    /// message is carried here.
    Redis(Vec<u8>),
}

/// The mathematical model of a decode error.
pub enum ErrorModel {
    /// Model of a parse error.
    Parse(crate::parse::Error),
    /// Model of an out-of-bounds length.
    Length,
    /// Model of unconsumed trailing input.
    TrailingData,
    /// Model of an unfinished array decode.
    UnfinishedArray,
    /// Model of a consumer-reported error.
    Custom,
    /// Model of a decoded RESP error reply.
    Redis(Seq<u8>),
}

impl View for Error {
    type V = ErrorModel;

    open spec fn view(&self) -> ErrorModel {
        match self {
            Error::Parse(e) => ErrorModel::Parse(*e),
            Error::Length => ErrorModel::Length,
            Error::TrailingData => ErrorModel::TrailingData,
            Error::UnfinishedArray => ErrorModel::UnfinishedArray,
            Error::Custom(_) => ErrorModel::Custom,
            Error::Redis(m) => ErrorModel::Redis(m@),
        }
    }
}

/// How a truncated-input report is enlarged when it bubbles out of an
/// array: each of the `remaining` undecoded elements needs at least three
/// bytes, and the array two more, so the caller learns a usable retry
/// threshold. Other errors pass through unchanged.
pub open spec fn bump_eof(e: ErrorModel, remaining: int) -> ErrorModel {
    match e {
        ErrorModel::Parse(crate::parse::Error::UnexpectedEof(n)) => ErrorModel::Parse(
            crate::parse::Error::UnexpectedEof(
                sat_add_usize(sat_add_usize(n as int, sat_mul3_usize(remaining)), 2) as usize,
            ),
        ),
        _ => e,
    }
}

/// The saturating triple of a non-negative quantity, capped at the largest
/// `usize` value.
pub open spec fn sat_mul3_usize(a: int) -> int {
    if a * 3 > usize::MAX {
        usize::MAX as int
    } else {
        a * 3
    }
}

/// What decoding one value from the front of `s` returns: the value model
/// and the count of consumed bytes, or the first error met.
pub open spec fn spec_decode_value(s: Seq<u8>) -> Result<(ValueModel, int), ErrorModel>
    decreases s.len(), 0int, 0int,
{
    match spec_read_header(s) {
        Err(e) => Err(ErrorModel::Parse(e)),
        Ok((h, k)) => if 1 <= k <= s.len() {
            match spec_decode_rest(h, s.skip(k)) {
                Err(e) => Err(e),
                Ok((v, k2)) => Ok((v, k + k2)),
            }
        } else {
            // Never reached: a read header consumes at least three bytes
            // and at most the input; the guard keeps the recursion
            // well-founded.
            Err(ErrorModel::Custom)
        },
    }
}

/// What decoding returns once the header is known, reading from the bytes
/// after it: scalars are complete, bulk strings read their payload, arrays
/// decode their declared number of elements, and an error reply surfaces
/// as a decode failure.
pub open spec fn spec_decode_rest(h: HeaderModel, rest: Seq<u8>) -> Result<
    (ValueModel, int),
    ErrorModel,
>
    decreases rest.len(), 2int, 0int,
{
    match h {
        HeaderModel::SimpleString(p) => Ok((ValueModel::Bytes(p), 0)),
        HeaderModel::Error(p) => Err(ErrorModel::Redis(p)),
        HeaderModel::Integer(i) => Ok((ValueModel::Int(i), 0)),
        HeaderModel::Null => Ok((ValueModel::Null, 0)),
        HeaderModel::BulkString(len) => if !(0 <= len <= MAX_BULK_LENGTH) {
            Err(ErrorModel::Length)
        } else {
            match crate::parse::spec_read_exact(len, rest) {
                Err(e) => Err(ErrorModel::Parse(e)),
                Ok((p, k2)) => Ok((ValueModel::Bytes(p), k2)),
            }
        },
        HeaderModel::Array(len) => if !(0 <= len <= MAX_BULK_LENGTH) {
            Err(ErrorModel::Length)
        } else {
            match spec_decode_elems(rest, len) {
                Err((e, remaining)) => Err(bump_eof(e, remaining)),
                Ok((k2, vs)) => Ok((ValueModel::List(vs), k2)),
            }
        },
    }
}

/// What decoding `n` consecutive values returns: the total consumed count
/// and the value models in order, or the first error met together with how
/// many elements were still owed when it struck.
pub open spec fn spec_decode_elems(s: Seq<u8>, n: int) -> Result<
    (int, Seq<ValueModel>),
    (ErrorModel, int),
>
    decreases s.len(), 1int, n,
{
    if n <= 0 {
        Ok((0, Seq::empty()))
    } else {
        match spec_decode_value(s) {
            Err(e) => Err((e, n - 1)),
            Ok((v, k)) => if 1 <= k <= s.len() {
                match spec_decode_elems(s.skip(k), n - 1) {
                    Err(p) => Err(p),
                    Ok((k2, vs)) => Ok((k + k2, seq![v] + vs)),
                }
            } else {
                // Never reached, as above: a decoded value consumes at
                // least three bytes and at most the input.
                Err((ErrorModel::Custom, n - 1))
            },
        }
    }
}

/// A successful decode consumes at least three bytes and never more than
/// the input.
pub proof fn lemma_decode_consumed(s: Seq<u8>)
    ensures
        spec_decode_value(s) matches Ok((v, k)) ==> 3 <= k <= s.len(),
    decreases s.len(), 0int, 0int,
{
    lemma_read_header_consumed(s);
    match spec_read_header(s) {
        Ok((h, k)) => {
            if 1 <= k <= s.len() {
                lemma_decode_rest_consumed(h, s.skip(k));
            }
        },
        Err(_) => {},
    }
}

/// Decoding past a known header consumes at most the remaining input.
pub proof fn lemma_decode_rest_consumed(h: HeaderModel, rest: Seq<u8>)
    ensures
        spec_decode_rest(h, rest) matches Ok((v, k2)) ==> 0 <= k2 <= rest.len(),
    decreases rest.len(), 2int, 0int,
{
    match h {
        HeaderModel::BulkString(len) => {},
        HeaderModel::Array(len) => {
            if 0 <= len <= MAX_BULK_LENGTH {
                lemma_decode_elems_consumed(rest, len);
            }
        },
        _ => {},
    }
}

/// Decoding a run of elements consumes at most the remaining input.
pub proof fn lemma_decode_elems_consumed(s: Seq<u8>, n: int)
    ensures
        spec_decode_elems(s, n) matches Ok((k, vs)) ==> 0 <= k <= s.len() && vs.len() == n || n
            < 0,
    decreases s.len(), 1int, n,
{
    if n > 0 {
        lemma_decode_consumed(s);
        match spec_decode_value(s) {
            Ok((v, k)) => {
                if 1 <= k <= s.len() {
                    lemma_decode_elems_consumed(s.skip(k), n - 1);
                }
            },
            Err(_) => {},
        }
    }
}

/// How a whole-value decode splits into its header read and the decode of
/// what follows, with the consumed counts adding up.
pub proof fn lemma_decode_value_compose(s: Seq<u8>)
    ensures
        match spec_read_header(s) {
            Ok((h, k)) => 3 <= k <= s.len() && match spec_decode_rest(h, s.skip(k)) {
                Ok((vm, k2)) => 0 <= k2 <= s.len() - k && spec_decode_value(s) == Ok::<
                    _,
                    ErrorModel,
                >((vm, k + k2)) && s.skip(k).skip(k2) =~= s.skip(k + k2),
                Err(em) => spec_decode_value(s) == Err::<(ValueModel, int), _>(em),
            },
            Err(e) => spec_decode_value(s) == Err::<(ValueModel, int), _>(ErrorModel::Parse(e)),
        },
{
    lemma_read_header_consumed(s);
    match spec_read_header(s) {
        Ok((h, k)) => {
            lemma_decode_rest_consumed(h, s.skip(k));
            match spec_decode_rest(h, s.skip(k)) {
                Ok((vm, k2)) => {
                    assert(s.skip(k).skip(k2) =~= s.skip(k + k2));
                },
                Err(_) => {},
            }
        },
        Err(_) => {},
    }
}

/// What [`from_bytes`] returns: the single decoded value, provided it
/// accounts for the entire input.
pub open spec fn spec_from_bytes(s: Seq<u8>) -> Result<ValueModel, ErrorModel> {
    match spec_decode_value(s) {
        Err(e) => Err(e),
        Ok((v, k)) => if k == s.len() {
            Ok(v)
        } else {
            Err(ErrorModel::TrailingData)
        },
    }
}

/// A RESP decoder: a cursor over a borrowed byte buffer.
///
/// Decoding advances the cursor past exactly the bytes of the decoded
/// value and deliberately tolerates trailing data, so several pipelined
/// values can be decoded by consecutive calls against one buffer.
#[derive(Debug)]
pub struct Deserializer<'a> {
    input: &'a [u8],
}

impl<'a> View for Deserializer<'a> {
    type V = Seq<u8>;

    closed spec fn view(&self) -> Seq<u8> {
        self.input@
    }
}

impl<'a> Deserializer<'a> {
    /// Create a decoder reading from the start of `input`.
    pub fn new(input: &'a [u8]) -> (r: Self)
        ensures
            r@ == input@,
    {
        Deserializer { input }
    }

    /// How many bytes of the input have not been consumed yet.
    pub fn remaining(&self) -> (r: usize)
        ensures
            r == self@.len(),
    {
        self.input.len()
    }

    /// Whether the whole input has been consumed.
    pub fn is_empty(&self) -> (r: bool)
        ensures
            r == (self@.len() == 0),
    {
        self.input.len() == 0
    }

    /// Read one header and advance the cursor past it; on an error the
    /// cursor stays where it was.
    fn read_cursor_header(&mut self) -> (r: Result<TaggedHeader<'a>, crate::parse::Error>)
        ensures
            match spec_read_header(old(self)@) {
                Ok((h, k)) => r matches Ok(h2) && h2@ == h && final(self)@ == old(self)@.skip(k),
                Err(e) => r matches Err(e2) && e2 == e && final(self)@ == old(self)@,
            },
    {
        match read_header(self.input) {
            Err(e) => Err(e),
            Ok((h, tail)) => {
                self.input = tail;
                Ok(h)
            },
        }
    }

    /// Decode one complete value of any shape and advance the cursor past
    /// it.
    pub fn decode_value(&mut self) -> (r: Result<Value, Error>)
        ensures
            match spec_decode_value(old(self)@) {
                Ok((vm, k)) => r matches Ok(v) && v@ == vm && final(self)@ == old(self)@.skip(k),
                Err(em) => r matches Err(e) && e@ == em,
            },
        decreases self@.len(), 0int, 0int,
    {
        proof {
            lemma_decode_value_compose(old(self)@);
        }
        let header = match self.read_cursor_header() {
            Err(e) => {
                return Err(Error::Parse(e));
            },
            Ok(h) => h,
        };
        self.decode_rest(header)
    }

    /// Decode the remainder of a value whose header has already been read.
    ///
    /// This is the redelivery entry point: option decoding peeks one
    /// header and, when the value is present, hands the header back so it
    /// is not parsed a second time.
    pub fn decode_rest(&mut self, header: TaggedHeader<'a>) -> (r: Result<Value, Error>)
        ensures
            match spec_decode_rest(header@, old(self)@) {
                Ok((vm, k2)) => r matches Ok(v) && v@ == vm && final(self)@ == old(self)@.skip(
                    k2,
                ),
                Err(em) => r matches Err(e) && e@ == em,
            },
        decreases self@.len(), 2int, 0int,
    {
        match header {
            TaggedHeader::SimpleString(p) => {
                proof {
                    assert(old(self)@.skip(0) =~= old(self)@);
                }
                Ok(Value::String(slice_to_vec(p)))
            },
            TaggedHeader::Error(p) => Err(Error::Redis(slice_to_vec(p))),
            TaggedHeader::Integer(v) => {
                proof {
                    assert(old(self)@.skip(0) =~= old(self)@);
                }
                Ok(Value::Integer(v))
            },
            TaggedHeader::Null => {
                proof {
                    assert(old(self)@.skip(0) =~= old(self)@);
                }
                Ok(Value::Null)
            },
            TaggedHeader::BulkString(len) => {
                if len < 0 || len > MAX_BULK_LENGTH {
                    return Err(Error::Length);
                }
                let length = len as usize;
                match crate::parse::read_exact(length, self.input) {
                    Err(e) => Err(Error::Parse(e)),
                    Ok((payload, tail)) => {
                        self.input = tail;
                        Ok(Value::String(slice_to_vec(payload)))
                    },
                }
            },
            TaggedHeader::Array(len) => {
                if len < 0 || len > MAX_BULK_LENGTH {
                    return Err(Error::Length);
                }
                let count = len as usize;
                match self.decode_elems(count) {
                    Ok(vs) => Ok(Value::Array(vs)),
                    Err((e, remaining)) => Err(bump_eof_exec(e, remaining)),
                }
            },
        }
    }

    /// Decode `n` consecutive values; on an error, report how many
    /// elements were still owed.
    #[verifier::loop_isolation(false)]
    fn decode_elems(&mut self, n: usize) -> (r: Result<Vec<Value>, (Error, usize)>)
        ensures
            match spec_decode_elems(old(self)@, n as int) {
                Ok((k, vms)) => r matches Ok(vs) && models_of(vs@) == vms && final(self)@ == old(self)@.skip(k),
                Err((em, remaining)) => r matches Err((e, rem2)) && e@ == em && rem2 == remaining,
            },
        decreases self@.len(), 1int, n as int,
    {
        let ghost s0 = self@;
        let mut values: Vec<Value> = Vec::new();
        let mut i: usize = 0;
        proof {
            assert(models_of(values@) =~= Seq::<ValueModel>::empty());
            match spec_decode_elems(s0, n as int) {
                Ok((k2, vms)) => {
                    assert(models_of(values@) + vms =~= vms);
                },
                Err(_) => {},
            }
        }
        while i < n
            invariant
                0 <= i <= n,
                self@.len() <= s0.len(),
                s0.skip(s0.len() - self@.len()) == self@,
                values@.len() == i,
                match spec_decode_elems(self@, n - i) {
                    Ok((k2, vms)) => spec_decode_elems(s0, n as int) == Ok::<_, (
                        ErrorModel,
                        int,
                    )>((s0.len() - self@.len() + k2, models_of(values@) + vms)),
                    Err(p) => spec_decode_elems(s0, n as int) == Err::<(int, Seq<ValueModel>), _>(
                        p,
                    ),
                },
            decreases n - i,
        {
            let ghost cur = self@;
            let ghost done = s0.len() - cur.len();
            proof {
                lemma_decode_consumed(cur);
            }
            match self.decode_value() {
                Err(e) => {
                    proof {
                        assert(spec_decode_elems(cur, n - i) == Err::<
                            (int, Seq<ValueModel>),
                            _,
                        >((e@, n - i - 1)));
                    }
                    return Err((e, n - i - 1));
                },
                Ok(v) => {
                    let ghost prev = values@;
                    let ghost vm = v@;
                    values.push(v);
                    proof {
                        let k = (cur.len() - self@.len()) as int;
                        assert(self@ == cur.skip(k));
                        assert(s0.skip(s0.len() - self@.len()) =~= self@);
                        lemma_models_of_push(prev, v);
                        match spec_decode_elems(self@, n - i - 1) {
                            Ok((k2, vms)) => {
                                vstd::seq_lib::lemma_concat_associative(
                                    models_of(prev),
                                    seq![vm],
                                    vms,
                                );
                            },
                            Err(_) => {},
                        }
                    }
                },
            }
            i += 1;
        }
        proof {
            assert(self@.skip(0) =~= self@);
            assert(models_of(values@) + Seq::<ValueModel>::empty() =~= models_of(values@));
        }
        Ok(values)
    }

    /// Decode one value and reinterpret an integer 0 or 1 as a boolean;
    /// any other decoded value is passed through unchanged for the caller
    /// to handle.
    pub fn decode_bool(&mut self) -> (r: Result<DecodedBool, Error>)
        ensures
            match spec_decode_value(old(self)@) {
                Ok((vm, k)) => final(self)@ == old(self)@.skip(k) && match vm {
                    ValueModel::Int(i) if i == 0 => r == Ok::<DecodedBool, Error>(DecodedBool::Flag(false)),
                    ValueModel::Int(i) if i == 1 => r == Ok::<DecodedBool, Error>(DecodedBool::Flag(true)),
                    _ => r matches Ok(DecodedBool::Other(v)) && v@ == vm,
                },
                Err(em) => r matches Err(e) && e@ == em,
            },
    {
        let value = match self.decode_value() {
            Err(e) => {
                return Err(e);
            },
            Ok(v) => v,
        };
        match value {
            Value::Integer(0i64) => Ok(DecodedBool::Flag(false)),
            Value::Integer(1i64) => Ok(DecodedBool::Flag(true)),
            v => Ok(DecodedBool::Other(v)),
        }
    }

    /// Decode one value as an option: the null sentinel is "absent", and
    /// any other value is decoded in place and reported "present". The
    /// already-parsed header is redelivered to the inner decode, not read
    /// again from bytes.
    pub fn decode_option(&mut self) -> (r: Result<Option<Value>, Error>)
        ensures
            match spec_decode_value(old(self)@) {
                Ok((vm, k)) => final(self)@ == old(self)@.skip(k) && match vm {
                    ValueModel::Null => r == Ok::<Option<Value>, Error>(None),
                    _ => r matches Ok(Some(v)) && v@ == vm,
                },
                Err(em) => r matches Err(e) && e@ == em,
            },
    {
        proof {
            lemma_decode_value_compose(old(self)@);
        }
        let header = match self.read_cursor_header() {
            Err(e) => {
                return Err(Error::Parse(e));
            },
            Ok(h) => h,
        };
        match header {
            TaggedHeader::Null => {
                proof {
                    assert(old(self)@.skip(
                        (old(self)@.len() - self@.len()) as int,
                    ) =~= self@);
                }
                Ok(None)
            },
            h => match self.decode_rest(h) {
                Err(e) => Err(e),
                Ok(v) => Ok(Some(v)),
            },
        }
    }

    /// Decode one value as a success-or-failure reply: a bare `+OK` is a
    /// plain success, an error reply is a failure carrying its raw
    /// message, and anything else is a success carrying the value decoded
    /// in place.
    pub fn decode_result(&mut self) -> (r: Result<ResultAccess, Error>)
        ensures
            match spec_read_header(old(self)@) {
                Err(e) => r matches Err(e2) && e2@ == ErrorModel::Parse(e),
                Ok((h, k)) => match h {
                    HeaderModel::Error(msg) => r matches Ok(a) && a@ == ResultModel::Failure(msg)
                        && final(self)@ == old(self)@.skip(k),
                    HeaderModel::SimpleString(p) => if p == seq![79u8, 75u8] {
                        r matches Ok(a) && a@ == ResultModel::PlainOk && final(self)@ == old(self)@.skip(k)
                    } else {
                        r matches Ok(a) && a@ == ResultModel::Success(ValueModel::Bytes(p)) && final(self)@ == old(self)@.skip(k)
                    },
                    _ => match spec_decode_value(old(self)@) {
                        Ok((vm, k2)) => r matches Ok(a) && a@ == ResultModel::Success(vm) && final(self)@ == old(self)@.skip(k2),
                        Err(em) => r matches Err(e) && e@ == em,
                    },
                },
            },
    {
        proof {
            lemma_decode_value_compose(old(self)@);
        }
        let header = match self.read_cursor_header() {
            Err(e) => {
                return Err(Error::Parse(e));
            },
            Ok(h) => h,
        };
        match header {
            TaggedHeader::SimpleString(p) => {
                if p.len() == 2 && *slice_index_get(p, 0) == 79 && *slice_index_get(p, 1) == 75 {
                    proof {
                        assert(p@ =~= seq![79u8, 75u8]);
                    }
                    Ok(ResultAccess::new_plain_ok())
                } else {
                    proof {
                        assert(p@ != seq![79u8, 75u8]);
                    }
                    Ok(ResultAccess::new_ok(Value::String(slice_to_vec(p))))
                }
            },
            TaggedHeader::Error(msg) => Ok(ResultAccess::new_err(slice_to_vec(msg))),
            h => match self.decode_rest(h) {
                Err(e) => Err(e),
                Ok(v) => Ok(ResultAccess::new_ok(v)),
            },
        }
    }
}

/// The outcome of a boolean-shaped decode.
#[derive(Debug)]
pub enum DecodedBool {
    /// The wire carried the integer 0 or 1.
    Flag(bool),
    /// The wire carried something else; it is handed through unchanged.
    Other(Value),
}

/// Enlarge a truncated-input report that bubbled out of an array, as
/// [`bump_eof`] describes.
fn bump_eof_exec(e: Error, remaining: usize) -> (r: Error)
    ensures
        r@ == bump_eof(e@, remaining as int),
{
    match e {
        Error::Parse(crate::parse::Error::UnexpectedEof(n)) => {
            let m3 = if remaining > usize::MAX / 3 {
                usize::MAX
            } else {
                remaining * 3
            };
            let a1 = if n > usize::MAX - m3 {
                usize::MAX
            } else {
                n + m3
            };
            let a2 = if a1 > usize::MAX - 2 {
                usize::MAX
            } else {
                a1 + 2
            };
            Error::Parse(crate::parse::Error::UnexpectedEof(a2))
        },
        e => e,
    }
}

/// Push one more model onto a modelled run of values.
pub proof fn lemma_models_of_push(vs: Seq<Value>, v: Value)
    ensures
        models_of(vs.push(v)) == models_of(vs) + seq![model_of(v)],
    decreases vs.len(),
{
    if vs.len() == 0 {
        assert(vs.push(v)[0] == v);
        assert(vs.push(v).subrange(1, vs.push(v).len() as int) =~= Seq::<Value>::empty());
        assert(models_of(vs) =~= Seq::<ValueModel>::empty());
        assert(models_of(Seq::<Value>::empty()) =~= Seq::<ValueModel>::empty());
        assert(models_of(vs.push(v)) =~= models_of(vs) + seq![model_of(v)]);
    } else {
        lemma_models_of_push(vs.subrange(1, vs.len() as int), v);
        assert(vs.push(v).subrange(1, vs.push(v).len() as int) =~= vs.subrange(
            1,
            vs.len() as int,
        ).push(v));
        assert(models_of(vs.push(v)) =~= models_of(vs) + seq![model_of(v)]);
    }
}

/// Decode a single value from a byte buffer, failing if any input remains
/// after it.
pub fn from_bytes(input: &[u8]) -> (r: Result<Value, Error>)
    ensures
        match spec_from_bytes(input@) {
            Ok(vm) => r matches Ok(v) && v@ == vm,
            Err(em) => r matches Err(e) && e@ == em,
        },
{
    proof {
        lemma_decode_consumed(input@);
    }
    let mut de = Deserializer::new(input);
    match de.decode_value() {
        Err(e) => Err(e),
        Ok(v) => {
            if de.is_empty() {
                Ok(v)
            } else {
                Err(Error::TrailingData)
            }
        },
    }
}

} // verus!
