//! Additional I/O traits.

use vstd::prelude::*;

verus! {

/// The reader with the exact number of bytes to read.
pub trait ExactSizeRead {
    /// The number of bytes that remain to be read.
    spec fn remaining(&self) -> nat;

    /// Returns the remaining bytes to read.
    fn bytes_remaining(&self) -> (n: usize)
        ensures
            n == self.remaining(),
    ;

    /// Return true if there are no remaining bytes to read.
    fn is_empty(&self) -> (b: bool)
        ensures
            b == (self.remaining() == 0),
    {
        self.bytes_remaining() == 0
    }
}

impl<'a, T: ExactSizeRead> ExactSizeRead for &'a mut T {
    open spec fn remaining(&self) -> nat {
        (**self).remaining()
    }

    fn bytes_remaining(&self) -> (n: usize) {
        T::bytes_remaining(self)
    }
}

impl<'a> ExactSizeRead for &'a [u8] {
    open spec fn remaining(&self) -> nat {
        (*self)@.len()
    }

    fn bytes_remaining(&self) -> (n: usize) {
        self.len()
    }
}

} // verus!
