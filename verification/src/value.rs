//! The typed in-memory data model of the codec.
//!
//! A [`Value`] is what decoding produces and encoding consumes. It mirrors
//! the RESP data model: binary-safe byte strings, signed 64-bit integers,
//! fixed-length arrays of further values, and null.

use vstd::prelude::*;

verus! {

broadcast use vstd::std_specs::vec::group_vec_axioms;

/// A typed RESP value.
///
/// Both simple strings and bulk strings decode to [`Value::String`]; the
/// encoder always emits a [`Value::String`] as a bulk string, which is the
/// binary-safe representation.
#[derive(Debug)]
pub enum Value {
    /// A binary-safe byte string.
    String(Vec<u8>),
    /// A signed 64-bit integer.
    Integer(i64),
    /// A fixed-length sequence of values.
    Array(Vec<Value>),
    /// The null value (on the wire: a bulk string or array of length -1).
    Null,
}

/// The mathematical model of a [`Value`]: the same shape over `Seq` and `int`.
pub enum ValueModel {
    /// Model of a byte string.
    Bytes(Seq<u8>),
    /// Model of an integer.
    Int(int),
    /// Model of an array.
    List(Seq<ValueModel>),
    /// Model of null.
    Null,
}

/// The model of one value.
pub open spec fn model_of(v: Value) -> ValueModel
    decreases v,
{
    match v {
        Value::String(s) => ValueModel::Bytes(s@),
        Value::Integer(i) => ValueModel::Int(i as int),
        Value::Array(vs) => ValueModel::List(models_of(vs@)),
        Value::Null => ValueModel::Null,
    }
}

/// The models of a sequence of values, element by element.
pub open spec fn models_of(vs: Seq<Value>) -> Seq<ValueModel>
    decreases vs,
{
    if vs.len() == 0 {
        Seq::empty()
    } else {
        seq![model_of(vs[0])] + models_of(vs.subrange(1, vs.len() as int))
    }
}

impl View for Value {
    type V = ValueModel;

    open spec fn view(&self) -> ValueModel {
        model_of(*self)
    }
}

/// Whether two byte strings hold the same bytes.
pub fn bytes_eq(a: &[u8], b: &[u8]) -> (r: bool)
    ensures
        r == (a@ == b@),
{
    if a.len() != b.len() {
        proof {
            assert(a@ != b@);
        }
        return false;
    }
    let n = a.len();
    let mut i: usize = 0;
    while i < n
        invariant
            0 <= i <= n,
            n == a@.len() == b@.len(),
            forall|j: int| 0 <= j < i ==> a@[j] == b@[j],
        decreases n - i,
    {
        if *vstd::slice::slice_index_get(a, i) != *vstd::slice::slice_index_get(b, i) {
            proof {
                assert(a@ != b@);
            }
            return false;
        }
        i += 1;
    }
    proof {
        assert(a@ =~= b@);
    }
    true
}

/// Whether two values carry the same data: the same bytes, the same
/// integer, null with null, or arrays of equal values in order.
pub fn value_eq(a: &Value, b: &Value) -> (r: bool)
    ensures
        r == (a@ == b@),
    decreases a,
{
    match (a, b) {
        (Value::Null, Value::Null) => true,
        (Value::Integer(x), Value::Integer(y)) => x == y,
        (Value::String(x), Value::String(y)) => bytes_eq(x.as_slice(), y.as_slice()),
        (Value::Array(xs), Value::Array(ys)) => values_eq(xs, ys),
        _ => false,
    }
}

/// Whether two runs of values carry the same data, element by element.
#[verifier::loop_isolation(false)]
pub fn values_eq(xs: &Vec<Value>, ys: &Vec<Value>) -> (r: bool)
    ensures
        r == (models_of(xs@) == models_of(ys@)),
    decreases xs,
{
    proof {
        lemma_models_of_len(xs@);
        lemma_models_of_len(ys@);
    }
    if xs.len() != ys.len() {
        proof {
            assert(models_of(xs@).len() != models_of(ys@).len());
        }
        return false;
    }
    let n = xs.len();
    let mut i: usize = 0;
    while i < n
        invariant
            0 <= i <= n,
            forall|j: int| 0 <= j < i ==> models_of(xs@)[j] == models_of(ys@)[j],
        decreases n - i,
    {
        proof {
            lemma_models_of_index(xs@, i as int);
            lemma_models_of_index(ys@, i as int);
        }
        if !value_eq(&xs[i], &ys[i]) {
            proof {
                assert(models_of(xs@)[i as int] != models_of(ys@)[i as int]);
            }
            return false;
        }
        i += 1;
    }
    proof {
        assert(models_of(xs@) =~= models_of(ys@));
    }
    true
}

/// A modelled run of values has one model per value, in order.
pub proof fn lemma_models_of_index(vs: Seq<Value>, i: int)
    requires
        0 <= i < vs.len(),
    ensures
        models_of(vs).len() == vs.len(),
        models_of(vs)[i] == model_of(vs[i]),
    decreases vs.len(),
{
    lemma_models_of_len(vs);
    if i > 0 {
        lemma_models_of_index(vs.subrange(1, vs.len() as int), i - 1);
    }
}

/// A modelled run of values keeps its length.
pub proof fn lemma_models_of_len(vs: Seq<Value>)
    ensures
        models_of(vs).len() == vs.len(),
    decreases vs.len(),
{
    if vs.len() > 0 {
        lemma_models_of_len(vs.subrange(1, vs.len() as int));
    }
}

} // verus!
