//! Storage traits and facilities.

mod image_reader;

pub use self::image_reader::{Image, ImageLines, ImageReader, ReadExactError, SeekFrom};

use vstd::prelude::*;

verus! {

/// Block size used by default.
pub const DEFAULT_BLOCK_SIZE: usize = 512;

/// Reading from block devices, `BLOCK_SIZE` bytes per block.
pub trait BlockReader<const BLOCK_SIZE: usize> {
    /// Error of the device.
    type Error;

    /// The contents of the device, block after block.
    spec fn contents(&self) -> Seq<u8>;

    /// True when reading this device never fails.
    spec fn infallible(&self) -> bool;

    /// Reads the first `buf.len()` bytes of the block `index` into `buf`.
    fn read_block(&self, index: usize, buf: &mut [u8]) -> (r: Result<(), Self::Error>)
        requires
            old(buf)@.len() <= BLOCK_SIZE,
            index * BLOCK_SIZE + old(buf)@.len() <= self.contents().len(),
        ensures
            final(buf)@.len() == old(buf)@.len(),
            self.infallible() ==> r is Ok,
            r is Ok ==> final(buf)@ == self.contents().subrange(
                index * BLOCK_SIZE,
                index * BLOCK_SIZE + old(buf)@.len(),
            ),
    ;
}

impl<'a, const BLOCK_SIZE: usize> BlockReader<BLOCK_SIZE> for &'a [u8] {
    type Error = core::convert::Infallible;

    open spec fn contents(&self) -> Seq<u8> {
        (*self)@
    }

    open spec fn infallible(&self) -> bool {
        true
    }

    fn read_block(&self, index: usize, buf: &mut [u8]) -> (r: Result<(), Self::Error>) {
        let total: usize = self.len();
        assert(index * BLOCK_SIZE <= total);
        let from = index * BLOCK_SIZE;
        let len = buf.len();
        let ghost old_buf = buf@;
        let mut i: usize = 0;
        while i < len
            invariant
                i <= len,
                len == old_buf.len(),
                buf@.len() == len,
                from == index * BLOCK_SIZE,
                from + len <= (*self)@.len(),
                total == (*self)@.len(),
                forall|j: int| 0 <= j < i ==> buf@[j] == (*self)@[from + j],
            decreases len - i,
        {
            buf[i] = self[from + i];
            i = i + 1;
        }
        assert(buf@ =~= (*self)@.subrange(from as int, from + len));
        Ok(())
    }
}

} // verus!
