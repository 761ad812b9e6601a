//! The dry-run length pass of command encoding.
//!
//! RESP arrays are length-prefixed, so a command must know how many flat
//! arguments it will write before it writes any. This pass walks a value
//! with the same traversal as the real encoder, restricted to the flat
//! shapes a command may hold — byte strings and sequences of them — and
//! only counts, emitting nothing. The count it returns is exactly the
//! element count the real emission pass then writes.

use vstd::prelude::*;

use crate::value::{Value, ValueModel};

verus! {

broadcast use vstd::std_specs::vec::group_vec_axioms;

/// Errors of the length pass.
#[derive(Debug, PartialEq, Eq)]
pub enum Error {
    /// The flat element count overflowed a machine word.
    Overflow,
    /// A value of this kind cannot stand in a command, which holds only
    /// byte strings and sequences of them; the payload names the kind.
    InvalidType(&'static str),
    /// An error reported by the producer of the data.
    Custom(String),
}

/// The model of a length-pass failure.
pub enum LengthErrorModel {
    /// Model of a count overflow.
    Overflow,
    /// Model of a value of invalid kind.
    InvalidType,
    /// Model of a producer-reported error.
    Custom,
}

impl View for Error {
    type V = LengthErrorModel;

    open spec fn view(&self) -> LengthErrorModel {
        match self {
            Error::Overflow => LengthErrorModel::Overflow,
            Error::InvalidType(_) => LengthErrorModel::InvalidType,
            Error::Custom(_) => LengthErrorModel::Custom,
        }
    }
}

/// What the length pass returns for one value: one for a byte string, the
/// summed count for a sequence, and a failure for any other kind.
pub open spec fn spec_flat_len(v: ValueModel) -> Result<int, LengthErrorModel>
    decreases v, 1int,
{
    match v {
        ValueModel::Bytes(_) => Ok(1),
        ValueModel::List(vs) => spec_flat_len_seq(vs, 0),
        ValueModel::Int(_) => Err(LengthErrorModel::InvalidType),
        ValueModel::Null => Err(LengthErrorModel::InvalidType),
    }
}

/// What accumulating the flat counts of a run of values onto `acc`
/// returns, failing on the first invalid element or on the first sum that
/// no longer fits a machine word.
pub open spec fn spec_flat_len_seq(vs: Seq<ValueModel>, acc: int) -> Result<
    int,
    LengthErrorModel,
>
    decreases vs, 0int,
{
    if vs.len() == 0 {
        Ok(acc)
    } else {
        match spec_flat_len(vs[0]) {
            Err(e) => Err(e),
            Ok(n) => if acc + n > usize::MAX {
                Err(LengthErrorModel::Overflow)
            } else {
                spec_flat_len_seq(vs.skip(1), acc + n)
            },
        }
    }
}

/// The length pass itself: it mirrors the real encoder's dispatch but
/// only counts flat elements.
pub struct Serializer;

impl Serializer {
    /// Count the flat elements of one value.
    pub fn serialize_value(self, v: &Value) -> (r: Result<usize, Error>)
        ensures
            match spec_flat_len(v@) {
                Ok(n) => r matches Ok(m) && m == n,
                Err(em) => r matches Err(e) && e@ == em,
            },
    {
        flat_len(v)
    }

    /// A byte string is one flat element.
    pub fn serialize_bytes(self, _v: &[u8]) -> (r: Result<usize, Error>)
        ensures
            r == Ok::<usize, Error>(1),
    {
        Ok(1)
    }

    /// A boolean cannot stand in a command.
    pub fn serialize_bool(self, _v: bool) -> (r: Result<usize, Error>)
        ensures
            r matches Err(e) && e is InvalidType,
    {
        Err(Error::InvalidType("a bool"))
    }

    /// An integer cannot stand in a command; commands carry numbers as
    /// strings.
    pub fn serialize_i64(self, _v: i64) -> (r: Result<usize, Error>)
        ensures
            r matches Err(e) && e is InvalidType,
    {
        Err(Error::InvalidType("an i64"))
    }

    /// An absent option cannot stand in a command.
    pub fn serialize_none(self) -> (r: Result<usize, Error>)
        ensures
            r matches Err(e) && e is InvalidType,
    {
        Err(Error::InvalidType("an option"))
    }

    /// A unit cannot stand in a command.
    pub fn serialize_unit(self) -> (r: Result<usize, Error>)
        ensures
            r matches Err(e) && e is InvalidType,
    {
        Err(Error::InvalidType("a unit"))
    }

    /// Begin counting a sequence.
    pub fn serialize_seq(self) -> (r: Accumulator)
        ensures
            r.length == 0,
    {
        Accumulator::new()
    }
}

/// The running count of the length pass over one sequence.
pub struct Accumulator {
    /// The flat elements counted so far.
    pub length: usize,
}

impl Accumulator {
    /// A count that has seen nothing yet.
    pub fn new() -> (r: Self)
        ensures
            r.length == 0,
    {
        Accumulator { length: 0 }
    }

    /// Count one more element, failing on an invalid kind or a count that
    /// no longer fits a machine word.
    pub fn serialize_element(&mut self, v: &Value) -> (r: Result<(), Error>)
        ensures
            match spec_flat_len_seq(seq![v@], old(self).length as int) {
                Ok(n) => r matches Ok(()) && final(self).length == n,
                Err(em) => r matches Err(e) && e@ == em,
            },
    {
        let n = match flat_len(v) {
            Err(e) => {
                return Err(e);
            },
            Ok(n) => n,
        };
        if self.length > usize::MAX - n {
            return Err(Error::Overflow);
        }
        self.length = self.length + n;
        proof {
            let one = seq![v@];
            assert(one[0] == v@);
            assert(one.skip(1) =~= Seq::<ValueModel>::empty());
            assert(spec_flat_len_seq(one.skip(1), self.length as int) == Ok::<
                int,
                LengthErrorModel,
            >(self.length as int));
        }
        Ok(())
    }

    /// Finish: the total flat element count.
    pub fn end(self) -> (r: usize)
        ensures
            r == self.length,
    {
        self.length
    }
}

/// Count the flat elements of one value: one per byte string, recursively
/// summed over sequences, rejecting every other kind.
pub fn flat_len(v: &Value) -> (r: Result<usize, Error>)
    ensures
        match spec_flat_len(v@) {
            Ok(n) => r matches Ok(m) && m == n,
            Err(em) => r matches Err(e) && e@ == em,
        },
    decreases v,
{
    match v {
        Value::String(_) => Ok(1),
        Value::Integer(_) => Err(Error::InvalidType("an integer")),
        Value::Null => Err(Error::InvalidType("a unit")),
        Value::Array(vs) => flat_len_seq(vs),
    }
}

/// Sum the flat counts of a run of values, failing on the first invalid
/// element or overflowing sum.
#[verifier::loop_isolation(false)]
fn flat_len_seq(vs: &Vec<Value>) -> (r: Result<usize, Error>)
    ensures
        match spec_flat_len_seq(crate::value::models_of(vs@), 0) {
            Ok(n) => r matches Ok(m) && m == n,
            Err(em) => r matches Err(e) && e@ == em,
        },
    decreases vs,
{
    let ghost ms = crate::value::models_of(vs@);
    proof {
        crate::value::lemma_models_of_len(vs@);
    }
    let n = vs.len();
    let mut acc: usize = 0;
    let mut i: usize = 0;
    proof {
        assert(ms.skip(0) =~= ms);
    }
    while i < n
        invariant
            0 <= i <= n,
            spec_flat_len_seq(ms, 0) == spec_flat_len_seq(ms.skip(i as int), acc as int),
        decreases n - i,
    {
        let ghost before = ms.skip(i as int);
        proof {
            crate::value::lemma_models_of_index(vs@, i as int);
            assert(before[0] == ms[i as int]);
        }
        let k = match flat_len(&vs[i]) {
            Err(e) => {
                return Err(e);
            },
            Ok(k) => k,
        };
        if acc > usize::MAX - k {
            return Err(Error::Overflow);
        }
        acc = acc + k;
        proof {
            assert(before.skip(1) =~= ms.skip(i + 1));
        }
        i += 1;
    }
    proof {
        assert(ms.skip(n as int) =~= Seq::<ValueModel>::empty());
    }
    Ok(acc)
}

/// How many byte-string leaves a value holds, counted in traversal order.
pub open spec fn spec_leaf_count(v: ValueModel) -> int
    decreases v, 1int,
{
    match v {
        ValueModel::Bytes(_) => 1,
        ValueModel::List(vs) => spec_leaf_count_seq(vs),
        ValueModel::Int(_) => 0,
        ValueModel::Null => 0,
    }
}

/// The leaves of a run of values, summed in order.
pub open spec fn spec_leaf_count_seq(vs: Seq<ValueModel>) -> int
    decreases vs, 0int,
{
    if vs.len() == 0 {
        0
    } else {
        spec_leaf_count(vs[0]) + spec_leaf_count_seq(vs.skip(1))
    }
}

/// The two passes of command encoding agree: when the dry run succeeds,
/// the count it returns is exactly the number of byte-string leaves the
/// real emission pass visits, in the same traversal order.
pub proof fn lemma_flat_len_counts_leaves(v: ValueModel)
    ensures
        spec_flat_len(v) matches Ok(n) ==> n == spec_leaf_count(v),
    decreases v, 1int,
{
    match v {
        ValueModel::List(vs) => {
            lemma_flat_len_seq_counts_leaves(vs, 0);
        },
        _ => {},
    }
}

/// The accumulating pass over a run of values agrees with its leaf count.
pub proof fn lemma_flat_len_seq_counts_leaves(vs: Seq<ValueModel>, acc: int)
    ensures
        spec_flat_len_seq(vs, acc) matches Ok(n) ==> n == acc + spec_leaf_count_seq(vs),
    decreases vs, 0int,
{
    if vs.len() > 0 {
        match spec_flat_len(vs[0]) {
            Err(_) => {},
            Ok(n0) => {
                lemma_flat_len_counts_leaves(vs[0]);
                if acc + n0 <= usize::MAX {
                    lemma_flat_len_seq_counts_leaves(vs.skip(1), acc + n0);
                }
            },
        }
    }
}

} // verus!
