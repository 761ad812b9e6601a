//! A verified codec for RESP, the Redis serialization protocol.
//!
//! The crate converts typed in-memory values ([`value::Value`]) to and from
//! the RESP wire format. Decoding is incremental and cursor-based, so several
//! pipelined values can be read back-to-back from one buffer; encoding writes
//! to any output sink.
//!
//! The wire grammar itself is stated once, as specification functions in
//! [`wire`], and every parser and serializer in the crate carries a contract
//! that ties its behaviour to those functions. The [`laws`] module proves
//! the properties that make the codec trustworthy: decoding undoes
//! encoding, pipelined values decode in order, over-long lengths are
//! rejected, and truncation is always reported as such.

use vstd::prelude::*;

pub mod components;
pub mod de;
pub mod laws;
pub mod parse;
pub mod ser;
pub mod value;
pub mod wire;

verus! {

/// The largest length a bulk string or array header may declare: 512 MiB.
pub const MAX_BULK_LENGTH: i64 = 536870912;

} // verus!
