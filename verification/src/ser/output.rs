//! The destination abstraction of the encoder.
//!
//! An [`Output`] accepts byte writes and capacity hints. The crate provides
//! the growable byte buffer `Vec<u8>`; callers can implement the trait for
//! their own destinations, such as byte-oriented streams, whose writes may
//! fail.

use vstd::prelude::*;

use crate::ser::Error;

verus! {

/// A destination that accepts byte writes and can reserve capacity.
pub trait Output: Sized {
    /// The bytes written to this destination so far.
    spec fn contents(&self) -> Seq<u8>;

    /// Whether writes to this kind of destination always succeed, as they
    /// do for an in-memory buffer.
    spec fn reliable() -> bool;

    /// Hint that writes totalling `count` bytes are coming; never fails
    /// and never changes what has been written.
    fn reserve(&mut self, count: usize)
        ensures
            final(self).contents() == old(self).contents(),
    ;

    /// Append bytes to the destination.
    fn write_bytes(&mut self, b: &[u8]) -> (r: Result<(), Error>)
        ensures
            r matches Ok(()) ==> final(self).contents() == old(self).contents() + b@,
            Self::reliable() ==> r is Ok,
    ;
}

impl Output for Vec<u8> {
    open spec fn contents(&self) -> Seq<u8> {
        self@
    }

    open spec fn reliable() -> bool {
        true
    }

    fn reserve(&mut self, count: usize) {
        Vec::reserve(self, count);
    }

    fn write_bytes(&mut self, b: &[u8]) -> (r: Result<(), Error>) {
        self.extend_from_slice(b);
        Ok(())
    }
}

} // verus!
