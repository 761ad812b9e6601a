//! The decoded shape of a success-or-failure reply.
//!
//! RESP reports failures with an error reply, and very commonly reports an
//! uninteresting success with the bare simple string `OK`. A
//! [`ResultAccess`] is what decoding one reply under that convention
//! yields: a plain success, a success carrying a decoded value, or a
//! failure carrying the raw error message.

use vstd::prelude::*;

use crate::value::{Value, ValueModel};

verus! {

/// A decoded success-or-failure reply.
#[derive(Debug)]
pub enum ResultAccess {
    /// The wire sent the bare simple string `OK`.
    PlainOk(ResultPlainOkPattern),
    /// The wire sent an ordinary value; it stands for success.
    Success(ResultOkPattern),
    /// The wire sent an error reply; its raw message is kept.
    Failure(ResultErrPattern),
}

/// The mathematical model of a decoded success-or-failure reply.
pub enum ResultModel {
    /// Model of the bare `OK` success.
    PlainOk,
    /// Model of a success carrying a value.
    Success(ValueModel),
    /// Model of a failure carrying the raw message.
    Failure(Seq<u8>),
}

impl View for ResultAccess {
    type V = ResultModel;

    open spec fn view(&self) -> ResultModel {
        match self {
            ResultAccess::PlainOk(_) => ResultModel::PlainOk,
            ResultAccess::Success(p) => ResultModel::Success(p.value@),
            ResultAccess::Failure(p) => ResultModel::Failure(p.message@),
        }
    }
}

/// The payload of a bare `OK` success; the reply carried no further data.
#[derive(Debug)]
pub struct ResultPlainOkPattern;

/// The payload of a success that carried a value.
#[derive(Debug)]
pub struct ResultOkPattern {
    /// The decoded value.
    pub value: Value,
}

/// The payload of a failure: the raw message of the error reply.
#[derive(Debug)]
pub struct ResultErrPattern {
    /// The raw error message bytes.
    pub message: Vec<u8>,
}

impl ResultAccess {
    /// The reply that is the bare simple string `OK`.
    pub fn new_plain_ok() -> (r: Self)
        ensures
            r@ == ResultModel::PlainOk,
    {
        ResultAccess::PlainOk(ResultPlainOkPattern)
    }

    /// A success carrying a decoded value.
    pub fn new_ok(value: Value) -> (r: Self)
        ensures
            r@ == ResultModel::Success(value@),
    {
        ResultAccess::Success(ResultOkPattern { value })
    }

    /// A failure carrying the raw message of an error reply.
    pub fn new_err(message: Vec<u8>) -> (r: Self)
        ensures
            r@ == ResultModel::Failure(message@),
    {
        ResultAccess::Failure(ResultErrPattern { message })
    }
}

impl ResultPlainOkPattern {
    /// The text the bare success stands for: the bytes `OK`.
    pub fn value(&self) -> (r: Vec<u8>)
        ensures
            r@ == seq![79u8, 75u8],
    {
        let mut v: Vec<u8> = Vec::new();
        v.push(79);
        v.push(75);
        proof {
            assert(v@ =~= seq![79u8, 75u8]);
        }
        v
    }
}

impl ResultOkPattern {
    /// The decoded value the success carried.
    pub fn value(self) -> (r: Value)
        ensures
            r@ == self.value@,
    {
        self.value
    }
}

impl ResultErrPattern {
    /// The raw message the failure carried.
    pub fn value(self) -> (r: Vec<u8>)
        ensures
            r@ == self.message@,
    {
        self.message
    }
}

} // verus!
