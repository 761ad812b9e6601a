//! Components that adapt common Redis conventions onto the core codec:
//! the dry-run length accumulation used to prefix command arrays, the
//! flattening of key-value pairs into alternating arrays, and the decimal
//! strings that carry numeric command arguments.

pub mod key_value;
pub mod length;
pub mod string;
