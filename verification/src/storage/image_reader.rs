//! Image reader over a block device, and an endless iterator over the image lines.

use vstd::prelude::*;

use super::BlockReader;
use crate::io::ExactSizeRead;
use crate::pixels::{bytes_to_pixels, spec_pixels, Rgb8};
use crate::proto::types::Hertz;

verus! {

/// Where to move the read position to.
#[derive(Clone, Copy, PartialEq, Eq, Structural, Debug)]
pub enum SeekFrom {
    /// Sets the offset to the provided number of bytes.
    Start(u64),
    /// Sets the offset to the size of this object plus the specified number of bytes.
    End(i64),
    /// Sets the offset to the current position plus the specified number of bytes.
    Current(i64),
}

/// Error of reading an exact number of bytes.
#[derive(Clone, Copy, PartialEq, Eq, Structural, Debug)]
pub enum ReadExactError<E> {
    /// The source ended before the buffer was filled.
    UnexpectedEof,
    /// An error of the source itself.
    Other(E),
}

/// A position splits into its block and the offset inside the block.
proof fn lemma_block_position(pos: int, n: int)
    requires
        n > 0,
        pos >= 0,
    ensures
        pos == (pos / n) * n + pos % n,
        0 <= pos % n < n,
        pos / n >= 0,
        0 <= (pos / n) * n <= pos,
{
    vstd::arithmetic::div_mod::lemma_fundamental_div_mod(pos, n);
    vstd::arithmetic::div_mod::lemma_mod_bound(pos, n);
    vstd::arithmetic::mul::lemma_mul_is_commutative(n, pos / n);
    assert(pos / n >= 0) by (nonlinear_arith)
        requires
            n > 0,
            pos >= 0,
    ;
    assert((pos / n) * n >= 0) by (nonlinear_arith)
        requires
            pos / n >= 0,
            n > 0,
    ;
}

/// Moving forward inside a block, without reaching its end, keeps the block.
proof fn lemma_same_block(pos: int, k: int, n: int)
    requires
        n > 0,
        pos >= 0,
        0 <= k <= n - pos % n,
        (pos + k) % n != 0,
    ensures
        (pos + k) / n == pos / n,
        (pos + k) % n == pos % n + k,
{
    lemma_block_position(pos, n);
    let q = pos / n;
    let r = pos % n;
    if r + k == n {
        assert(pos + k == (q + 1) * n) by (nonlinear_arith)
            requires
                pos == q * n + r,
                r + k == n,
        ;
        vstd::arithmetic::div_mod::lemma_fundamental_div_mod_converse(pos + k, n, q + 1, 0);
    } else {
        vstd::arithmetic::div_mod::lemma_fundamental_div_mod_converse(pos + k, n, q, r + k);
    }
}

/// A position past the start of its block, and any later position before the block ends,
/// lie in that same block and off its boundary.
proof fn lemma_inside_block(pos: int, p: int, n: int)
    requires
        n > 0,
        pos >= 0,
        pos % n != 0,
        pos <= p < (pos / n + 1) * n,
    ensures
        p / n == pos / n,
        p % n == p - (pos / n) * n,
        p % n != 0,
{
    lemma_block_position(pos, n);
    let q = pos / n;
    assert(q * n < p) by (nonlinear_arith)
        requires
            pos == q * n + pos % n,
            pos % n > 0,
            pos <= p,
    ;
    assert(p - q * n < n) by (nonlinear_arith)
        requires
            p < (q + 1) * n,
    ;
    vstd::arithmetic::div_mod::lemma_fundamental_div_mod_converse(p, n, q, p - q * n);
}

/// The length of a read: nothing when the image or the buffer is exhausted, otherwise as
/// much as both allow, but no further than the end of the current block.
pub open spec fn spec_read_len(remaining: int, available: int, left_in_block: int) -> int {
    if remaining == 0 || available == 0 {
        0
    } else {
        vstd::math::min(vstd::math::min(remaining, available), left_in_block)
    }
}

/// Image reader over a block device: the image is the first `image_len` bytes of the device.
pub struct ImageReader<T, const N: usize> where T: BlockReader<N> {
    block_reader: T,
    image_len: usize,
    bytes_read: usize,
    block: Vec<u8>,
}

impl<T, const N: usize> ImageReader<T, N> where T: BlockReader<N> {
    /// Length of the image in bytes.
    pub closed spec fn len(&self) -> nat {
        self.image_len as nat
    }

    /// The read position.
    pub closed spec fn position(&self) -> nat {
        self.bytes_read as nat
    }

    /// The contents of the underlying device.
    pub open spec fn device(&self) -> Seq<u8> {
        self.source().contents()
    }

    /// The block device the image is read from.
    pub closed spec fn source(&self) -> T {
        self.block_reader
    }

    /// Whether reading the underlying device never fails.
    pub open spec fn infallible(&self) -> bool {
        self.source().infallible()
    }

    /// The buffer holding the current block.
    pub closed spec fn block_cache(&self) -> Seq<u8> {
        self.block@
    }

    /// The image bytes.
    pub open spec fn image(&self) -> Seq<u8> {
        self.device().subrange(0, self.len() as int)
    }

    /// The reader is well formed: the block buffer can hold a whole block and the read
    /// position lies inside the image.
    pub open spec fn wf(&self) -> bool {
        &&& self.block_cache().len() >= N
        &&& self.position() <= self.len()
    }

    /// The image lies inside the device.
    pub open spec fn fits(&self) -> bool {
        self.len() <= self.device().len()
    }

    /// The block buffer holds the current block, if the position lies inside a block.
    pub open spec fn cache_ok(&self) -> bool {
        self.position() % (N as nat) != 0 ==> {
            let start = (self.position() / (N as nat)) * N;
            let valid = vstd::math::min(N as int, self.len() - start);
            forall|j: int|
                0 <= j < valid ==> #[trigger] self.block_cache()[j] == self.device()[start + j]
        }
    }

    /// The bytes that a read of `n` bytes from this state hands out: the image bytes at the
    /// position, unless the block buffer is stale inside a block.
    pub open spec fn read_data(&self, n: int) -> Seq<u8> {
        if self.cache_ok() || self.position() % (N as nat) == 0 {
            self.device().subrange(self.position() as int, self.position() + n)
        } else {
            let from = (self.position() % (N as nat)) as int;
            self.block_cache().subrange(from, from + n)
        }
    }

    /// Whether reading the next `n` bytes, as far as the image goes, needs no block from the
    /// device: nothing is to be read, or all of it lies in the block already loaded, past
    /// that block's start.
    pub open spec fn reads_no_block(&self, n: int) -> bool {
        let k = vstd::math::min(n, self.len() - self.position());
        k <= 0 || (self.position() % (N as nat) != 0 && self.position() + k <= (self.position()
            / (N as nat) + 1) * N)
    }

    /// Creates a new image reader with the given block buffer.
    pub fn new(block_reader: T, image_len: usize, block: Vec<u8>) -> (r: Self)
        requires
            block@.len() >= N,
        ensures
            r.wf(),
            r.len() == image_len,
            r.position() == 0,
            r.source() == block_reader,
            r.device() == block_reader.contents(),
            r.infallible() == block_reader.infallible(),
            r.cache_ok(),
    {
        Self { block_reader, image_len, bytes_read: 0, block }
    }

    /// Creates a new image reader with a zeroed block buffer of `N` bytes.
    pub fn new_in_array(block_reader: T, image_len: usize) -> (r: Self)
        ensures
            r.wf(),
            r.len() == image_len,
            r.position() == 0,
            r.source() == block_reader,
            r.device() == block_reader.contents(),
            r.infallible() == block_reader.infallible(),
            r.cache_ok(),
    {
        let block = vec![0u8; N];
        Self { block_reader, image_len, bytes_read: 0, block }
    }

    /// Length of the image in bytes.
    pub fn image_len(&self) -> (n: usize)
        ensures
            n == self.len(),
    {
        self.image_len
    }

    /// Index of the block that holds the read position.
    fn current_block(&self) -> (b: usize)
        requires
            N > 0,
        ensures
            b == self.position() / (N as nat),
    {
        self.bytes_read / N
    }

    /// Loads the current block (at most up to the image end) into the block buffer.
    fn read_current_block_to_buf(&mut self) -> (r: Result<(), T::Error>)
        requires
            N > 0,
            old(self).wf(),
            old(self).fits(),
        ensures
            final(self).wf(),
            final(self).len() == old(self).len(),
            final(self).position() == old(self).position(),
            final(self).device() == old(self).device(),
            final(self).infallible() == old(self).infallible(),
            old(self).infallible() ==> r is Ok,
            r is Ok ==> {
                let start = (old(self).position() / (N as nat)) * N;
                let to = vstd::math::min(old(self).len() - old(self).position(), N as int);
                &&& forall|j: int|
                    0 <= j < to ==> #[trigger] final(self).block_cache()[j] == old(self).device()[start + j]
                &&& forall|j: int|
                    to <= j < final(self).block_cache().len() ==> #[trigger] final(self).block_cache()[j] == old(self).block_cache()[j]
            },
    {
        proof {
            lemma_block_position(self.bytes_read as int, N as int);
        }
        let remaining = self.image_len - self.bytes_read;
        let to = if remaining < N {
            remaining
        } else {
            N
        };
        let block = self.current_block();
        let mut tmp = vec![0u8; to];
        let ghost start = (self.bytes_read / N) * N;
        assert(block * N == start);
        match self.block_reader.read_block(block, tmp.as_mut_slice()) {
            Ok(()) => {},
            Err(e) => {
                return Err(e);
            },
        }
        let ghost old_block = self.block@;
        let mut i: usize = 0;
        while i < to
            invariant
                i <= to,
                to <= N,
                N <= old_block.len(),
                self.block@.len() == old_block.len(),
                tmp@ == self.block_reader.contents().subrange(start, start + to),
                tmp@.len() == to,
                self.image_len == old(self).image_len,
                self.bytes_read == old(self).bytes_read,
                self.block_reader == old(self).block_reader,
                forall|j: int| 0 <= j < i ==> self.block@[j] == tmp@[j],
                forall|j: int| i <= j < self.block@.len() ==> self.block@[j] == old_block[j],
            decreases to - i,
        {
            self.block.set(i, tmp[i]);
            i = i + 1;
        }
        assert forall|j: int| 0 <= j < to implies #[trigger] self.block_cache()[j] == old(self).device()[start + j] by {
            assert(tmp@[j] == self.block_reader.contents().subrange(start, start + to)[j]);
        }
        Ok(())
    }

    /// Reads into `buf` starting at `offset`, no further than the end of the current block.
    fn read_at(&mut self, buf: &mut [u8], offset: usize, end: usize) -> (r: Result<usize, T::Error>)
        requires
            N > 0,
            offset <= end <= old(buf)@.len(),
            old(self).wf(),
            old(self).fits(),
        ensures
            final(self).wf(),
            final(self).len() == old(self).len(),
            final(self).device() == old(self).device(),
            final(self).infallible() == old(self).infallible(),
            final(buf)@.len() == old(buf)@.len(),
            old(self).infallible() ==> r is Ok,
            old(self).position() == old(self).len() || end == offset || old(self).position() % (
            N as nat) != 0 ==> r is Ok,
            r is Err ==> final(self).position() == old(self).position() && final(buf)@ == old(
                buf,
            )@ && final(self).cache_ok(),
            r is Ok ==> {
                let n = r->Ok_0 as int;
                let pos = old(self).position() as int;
                &&& n == spec_read_len(
                    old(self).len() - pos,
                    end - offset,
                    N - pos % (N as int),
                )
                &&& final(self).position() == pos + n
                &&& final(buf)@.subrange(offset as int, offset + n) == old(self).read_data(n)
                &&& forall|j: int|
                    0 <= j < final(buf)@.len() && !(offset <= j < offset + n) ==> #[trigger] final(buf)@[j] == old(buf)@[j]
                &&& (old(self).cache_ok() || pos % (N as int) == 0) ==> final(self).cache_ok()
            },
    {
        let available = end - offset;
        if self.is_empty() || available == 0 {
            assert(final(buf)@.subrange(offset as int, offset as int) =~= old(self).read_data(0));
            return Ok(0);
        }
        let ghost pre = *self;
        proof {
            lemma_block_position(self.bytes_read as int, N as int);
        }
        let reload = self.bytes_read % N == 0;
        if reload {
            match self.read_current_block_to_buf() {
                Ok(()) => {},
                Err(e) => {
                    return Err(e);
                },
            }
        }
        let remaining = self.image_len - self.bytes_read;
        let max_bytes_to_read = if remaining < available {
            remaining
        } else {
            available
        };
        let from = self.bytes_read % N;
        let bytes_to_read = if max_bytes_to_read < N - from {
            max_bytes_to_read
        } else {
            N - from
        };
        let ghost start = (pre.bytes_read / N) * N;
        let ghost valid = vstd::math::min(N as int, pre.image_len - start);
        // The bytes handed out come from the loaded (or still valid) part of the block.
        assert(pre.bytes_read == start + from);
        assert(pre.cache_ok() || reload ==> forall|k: int|
            from <= k < from + bytes_to_read ==> #[trigger] self.block_cache()[k]
                == pre.device()[start + k]) by {
            if pre.cache_ok() || reload {
                assert forall|k: int| from <= k < from + bytes_to_read implies #[trigger] self.block_cache()[k]
                    == pre.device()[start + k] by {
                    if reload {
                        assert(from == 0);
                        assert(start == pre.bytes_read);
                    } else {
                        assert(k < valid);
                        assert(pre.block_cache()[k] == pre.device()[start + k]);
                    }
                }
            }
        }
        let blen: usize = buf.len();
        let ghost old_buf = buf@;
        let ghost mid = *self;
        let mut i: usize = 0;
        while i < bytes_to_read
            invariant
                *self == mid,
                i <= bytes_to_read,
                from + bytes_to_read <= N,
                N <= self.block@.len(),
                offset + bytes_to_read <= old_buf.len(),
                old_buf.len() == blen,
                buf@.len() == old_buf.len(),
                forall|k: int| offset <= k < offset + i ==> #[trigger] buf@[k] == self.block@[from + (k - offset)],
                forall|j: int|
                    0 <= j < buf@.len() && !(offset <= j < offset + i) ==> buf@[j] == old_buf[j],
            decreases bytes_to_read - i,
        {
            buf[offset + i] = self.block[from + i];
            i = i + 1;
        }
        self.bytes_read = self.bytes_read + bytes_to_read;
        proof {
            let n = bytes_to_read as int;
            assert forall|j: int| 0 <= j < n implies #[trigger] buf@.subrange(
                offset as int,
                offset + n,
            )[j] == pre.read_data(n)[j] by {
                assert(buf@[offset + j] == mid.block@[from + j]);
                if pre.cache_ok() || reload {
                    assert(mid.block_cache()[from + j] == pre.device()[start + (from + j)]);
                }
            }
            assert(buf@.subrange(offset as int, offset + n) =~= pre.read_data(n));
            if (pre.cache_ok() || reload) && self.bytes_read % N != 0 {
                lemma_same_block(pre.bytes_read as int, n, N as int);
                let s2 = (self.bytes_read / N) * N;
                assert(s2 == start);
                let valid2 = vstd::math::min(N as int, self.image_len - s2);
                assert(self.block_cache() == mid.block_cache());
                assert(self.device() == pre.device());
                assert forall|j: int| 0 <= j < valid2 implies #[trigger] self.block_cache()[j]
                    == self.device()[s2 + j] by {
                    assert(self.block_cache()[j] == mid.block_cache()[j]);
                    if reload {
                        assert(start == pre.bytes_read);
                    } else {
                        assert(pre.block_cache()[j] == pre.device()[start + j]);
                    }
                }
            }
        }
        Ok(bytes_to_read)
    }

    /// Reads at most `buf.len()` bytes, no further than the end of the current block.
    pub fn read(&mut self, buf: &mut [u8]) -> (r: Result<usize, T::Error>)
        requires
            N > 0,
            old(self).wf(),
            old(self).fits(),
        ensures
            final(self).wf(),
            final(self).len() == old(self).len(),
            final(self).device() == old(self).device(),
            final(self).infallible() == old(self).infallible(),
            final(buf)@.len() == old(buf)@.len(),
            old(self).infallible() ==> r is Ok,
            old(self).position() == old(self).len() || old(buf)@.len() == 0 || old(self).position()
                % (N as nat) != 0 ==> r is Ok,
            r is Err ==> final(self).position() == old(self).position(),
            r is Ok ==> {
                let n = r->Ok_0 as int;
                let pos = old(self).position() as int;
                &&& n == spec_read_len(old(self).len() - pos, old(buf)@.len() as int, N - pos % (
                N as int))
                &&& final(self).position() == pos + n
                &&& final(buf)@.subrange(0, n) == old(self).read_data(n)
                &&& final(buf)@.subrange(n, final(buf)@.len() as int) == old(buf)@.subrange(
                    n,
                    old(buf)@.len() as int,
                )
                &&& (old(self).cache_ok() || pos % (N as int) == 0) ==> final(self).cache_ok()
            },
    {
        let r = self.read_at(buf, 0, buf.len());
        proof {
            if r is Ok {
                let n = r->Ok_0 as int;
                assert(buf@.subrange(n, buf@.len() as int) =~= old(buf)@.subrange(
                    n,
                    old(buf)@.len() as int,
                ));
            }
        }
        r
    }

    /// Moves the read position to the given offset from the image start and loads the block
    /// that holds it, from the offset's block start up to at most one block and no further
    /// than the image end. Only offsets from the start are supported.
    pub fn seek(&mut self, seek: SeekFrom) -> (r: Result<u64, T::Error>)
        requires
            N > 0,
            old(self).wf(),
            old(self).fits(),
            seek is Start,
            seek->Start_0 <= old(self).len(),
        ensures
            final(self).wf(),
            final(self).len() == old(self).len(),
            final(self).device() == old(self).device(),
            final(self).infallible() == old(self).infallible(),
            final(self).position() == seek->Start_0,
            old(self).infallible() ==> r is Ok,
            r is Ok ==> {
                let pos = seek->Start_0 as int;
                let start = (pos / (N as int)) * N;
                let to = vstd::math::min(old(self).len() - pos, N as int);
                &&& r->Ok_0 == seek->Start_0
                &&& forall|j: int|
                    0 <= j < to ==> #[trigger] final(self).block_cache()[j] == old(self).device()[start + j]
                &&& forall|j: int|
                    to <= j < final(self).block_cache().len() ==> #[trigger] final(self).block_cache()[j] == old(self).block_cache()[j]
                &&& (pos % (N as int) == 0 || old(self).len() - pos >= N) ==> final(self).cache_ok()
            },
    {
        let pos = match seek {
            SeekFrom::Start(pos) => pos,
            SeekFrom::End(_) => 0,
            SeekFrom::Current(_) => 0,
        };
        // Compute a new image read position
        self.bytes_read = pos as usize;
        // Reread the block corresponding to the new read position
        match self.read_current_block_to_buf() {
            Ok(()) => {},
            Err(e) => {
                return Err(e);
            },
        }
        proof {
            let p = pos as int;
            lemma_block_position(p, N as int);
            if p % (N as int) != 0 && self.image_len - p >= N {
                let start = (p / (N as int)) * N;
                let valid = vstd::math::min(N as int, self.image_len - start);
                assert forall|j: int| 0 <= j < valid implies #[trigger] self.block_cache()[j]
                    == self.device()[start + j] by {
                    assert(j < N);
                }
            }
        }
        Ok(self.bytes_read as u64)
    }

    /// Moves the read position to the beginning of the image.
    pub fn rewind(&mut self) -> (r: Result<(), T::Error>)
        requires
            N > 0,
            old(self).wf(),
            old(self).fits(),
        ensures
            final(self).wf(),
            final(self).len() == old(self).len(),
            final(self).device() == old(self).device(),
            final(self).infallible() == old(self).infallible(),
            final(self).position() == 0,
            final(self).cache_ok(),
            old(self).infallible() ==> r is Ok,
    {
        match self.seek(SeekFrom::Start(0)) {
            Ok(_) => Ok(()),
            Err(e) => Err(e),
        }
    }

    /// Fills `buf[0..end]` with the next bytes of the image.
    fn read_exact_prefix(&mut self, buf: &mut [u8], end: usize) -> (r: Result<
        (),
        ReadExactError<T::Error>,
    >)
        requires
            N > 0,
            end <= old(buf)@.len(),
            old(self).wf(),
            old(self).fits(),
        ensures
            final(self).wf(),
            final(self).len() == old(self).len(),
            final(self).device() == old(self).device(),
            final(self).infallible() == old(self).infallible(),
            final(buf)@.len() == old(buf)@.len(),
            final(buf)@.subrange(end as int, final(buf)@.len() as int) == old(buf)@.subrange(
                end as int,
                old(buf)@.len() as int,
            ),
            old(self).infallible() ==> !(r matches Err(ReadExactError::Other(_))),
            old(self).reads_no_block(end as int) ==> !(r matches Err(ReadExactError::Other(_))),
            r is Ok ==> end <= old(self).len() - old(self).position() && final(self).position()
                == old(self).position() + end,
            r matches Err(ReadExactError::UnexpectedEof) ==> end > old(self).len() - old(self).position() && final(self).position() == old(self).len(),
            old(self).cache_ok() ==> final(self).cache_ok(),
            old(self).cache_ok() && !(r matches Err(ReadExactError::Other(_))) ==> {
                let k = vstd::math::min(end as int, old(self).len() - old(self).position());
                final(buf)@.subrange(0, k) == old(self).device().subrange(
                    old(self).position() as int,
                    old(self).position() + k,
                )
            },
    {
        let ghost pre = *self;
        let ghost old_buf = buf@;
        let mut filled: usize = 0;
        loop
            invariant
                pre == *old(self),
                old_buf == old(buf)@,
                N > 0,
                filled <= end,
                end <= buf@.len(),
                buf@.len() == old_buf.len(),
                self.wf(),
                self.fits(),
                self.len() == pre.len(),
                self.device() == pre.device(),
                self.infallible() == pre.infallible(),
                self.position() == pre.position() + filled,
                pre.cache_ok() ==> self.cache_ok(),
                pre.cache_ok() ==> buf@.subrange(0, filled as int) == pre.device().subrange(
                    pre.position() as int,
                    pre.position() + filled,
                ),
                forall|j: int| end <= j < buf@.len() ==> #[trigger] buf@[j] == old_buf[j],
                pre.reads_no_block(end as int) ==> (self.position() % (N as nat) != 0 || filled
                    == end || self.position() == self.len()),
                pre.reads_no_block(end as int) && filled > 0 ==> self.position() <= (pre.position()
                    / (N as nat) + 1) * N,
            ensures
                filled <= end,
                buf@.len() == old_buf.len(),
                self.wf(),
                self.fits(),
                self.len() == pre.len(),
                self.device() == pre.device(),
                self.infallible() == pre.infallible(),
                self.position() == pre.position() + filled,
                pre.cache_ok() ==> self.cache_ok(),
                pre.cache_ok() ==> buf@.subrange(0, filled as int) == pre.device().subrange(
                    pre.position() as int,
                    pre.position() + filled,
                ),
                forall|j: int| end <= j < buf@.len() ==> #[trigger] buf@[j] == old_buf[j],
                filled < end ==> self.position() == self.len(),
                pre.reads_no_block(end as int) ==> (self.position() % (N as nat) != 0 || filled
                    == end || self.position() == self.len()),
                pre.reads_no_block(end as int) && filled > 0 ==> self.position() <= (pre.position()
                    / (N as nat) + 1) * N,
            decreases end - filled,
        {
            if filled >= end {
                break;
            }
            let ghost before = buf@;
            let ghost st = *self;
            match self.read_at(buf, filled, end) {
                Ok(n) => {
                    if n == 0 {
                        break;
                    }
                    proof {
                        if pre.reads_no_block(end as int) {
                            let bn = N as int;
                            let p = st.position() as int;
                            let q = pre.position() as int / bn;
                            lemma_block_position(p, bn);
                            if filled == 0 {
                                assert(p == pre.position());
                            }
                            assert(p % bn != 0);
                            lemma_inside_block(pre.position() as int, p, bn);
                            let p2 = p + n;
                            assert(p2 <= (q + 1) * bn);
                            if p2 < (q + 1) * bn {
                                lemma_inside_block(pre.position() as int, p2, bn);
                            }
                        }
                    }
                    proof {
                        if pre.cache_ok() {
                            let a = buf@.subrange(0, filled + n);
                            let b = pre.device().subrange(
                                pre.position() as int,
                                pre.position() + filled + n,
                            );
                            assert forall|j: int| 0 <= j < filled + n implies a[j] == b[j] by {
                                if j < filled {
                                    assert(buf@[j] == before[j]);
                                    assert(before.subrange(0, filled as int)[j] == before[j]);
                                } else {
                                    assert(buf@.subrange(filled as int, filled + n)[j - filled]
                                        == st.read_data(n as int)[j - filled]);
                                }
                            }
                            assert(a =~= b);
                        }
                    }
                    filled = filled + n;
                },
                Err(e) => {
                    proof {
                        assert(buf@.subrange(end as int, buf@.len() as int) =~= old_buf.subrange(
                            end as int,
                            old_buf.len() as int,
                        ));
                    }
                    return Err(ReadExactError::Other(e));
                },
            }
        }
        proof {
            assert(buf@.subrange(end as int, buf@.len() as int) =~= old_buf.subrange(
                end as int,
                old_buf.len() as int,
            ));
        }
        if filled < end {
            Err(ReadExactError::UnexpectedEof)
        } else {
            Ok(())
        }
    }

    /// Fills the whole buffer with the next bytes of the image; fails with `UnexpectedEof`
    /// (after reading all remaining bytes) if the image ends first.
    pub fn read_exact(&mut self, buf: &mut [u8]) -> (r: Result<(), ReadExactError<T::Error>>)
        requires
            N > 0,
            old(self).wf(),
            old(self).fits(),
        ensures
            final(self).wf(),
            final(self).len() == old(self).len(),
            final(self).device() == old(self).device(),
            final(self).infallible() == old(self).infallible(),
            final(buf)@.len() == old(buf)@.len(),
            old(self).infallible() ==> !(r matches Err(ReadExactError::Other(_))),
            old(self).reads_no_block(old(buf)@.len() as int) ==> !(r matches Err(
                ReadExactError::Other(_),
            )),
            old(buf)@.len() == 0 ==> r is Ok,
            r is Ok ==> old(buf)@.len() <= old(self).len() - old(self).position() && final(self).position() == old(self).position() + old(buf)@.len(),
            r matches Err(ReadExactError::UnexpectedEof) ==> old(buf)@.len() > old(self).len()
                - old(self).position() && final(self).position() == old(self).len(),
            old(self).cache_ok() ==> final(self).cache_ok(),
            old(self).cache_ok() && !(r matches Err(ReadExactError::Other(_))) ==> {
                let k = vstd::math::min(old(buf)@.len() as int, old(self).len() - old(self).position());
                final(buf)@.subrange(0, k) == old(self).device().subrange(
                    old(self).position() as int,
                    old(self).position() + k,
                )
            },
    {
        let end = buf.len();
        self.read_exact_prefix(buf, end)
    }
}

impl<T, const N: usize> ExactSizeRead for ImageReader<T, N> where T: BlockReader<N> {
    open spec fn remaining(&self) -> nat {
        if self.position() <= self.len() {
            (self.len() - self.position()) as nat
        } else {
            0
        }
    }

    fn bytes_remaining(&self) -> (n: usize) {
        if self.bytes_read <= self.image_len {
            self.image_len - self.bytes_read
        } else {
            0
        }
    }
}

/// An image: its bytes and the refresh rate of a square area of the picture with the strip
/// length size.
///
/// That is, the refresh rate of a single line of a picture is the refresh rate of
/// the entire image multiplied by the strip length.
pub struct Image<R> {
    pub refresh_rate: Hertz,
    pub bytes: R,
}

impl<T, const N: usize> Image<ImageReader<T, N>> where T: BlockReader<N> {
    /// Rewind to the beginning of an image.
    pub fn rewind(&mut self) -> (r: Result<(), T::Error>)
        requires
            N > 0,
            old(self).bytes.wf(),
            old(self).bytes.fits(),
        ensures
            final(self).refresh_rate == old(self).refresh_rate,
            final(self).bytes.wf(),
            final(self).bytes.len() == old(self).bytes.len(),
            final(self).bytes.device() == old(self).bytes.device(),
            final(self).bytes.infallible() == old(self).bytes.infallible(),
            final(self).bytes.position() == 0,
            final(self).bytes.cache_ok(),
            old(self).bytes.infallible() ==> r is Ok,
    {
        self.bytes.rewind()
    }
}

/// Where the next line starts: at the read position, or back at the image start once the
/// whole image has been read.
pub open spec fn spec_line_start(position: nat, len: nat) -> nat {
    if position == len {
        0
    } else {
        position
    }
}

/// An endless iterator over the image lines, then it reaches the end of image, it rewinds to the beginning.
pub struct ImageLines<T, const N: usize> where T: BlockReader<N> {
    image: Image<ImageReader<T, N>>,
    strip_line_len: usize,
    strip_line_buf: Vec<u8>,
    line_rate: Hertz,
    /// Whether the lines are read from the image start, with the block buffer valid.
    from_start: Ghost<bool>,
    /// Lines read since the iterator was made.
    lines_read: Ghost<nat>,
}

impl<T, const N: usize> ImageLines<T, N> where T: BlockReader<N> {
    /// Bytes count per single pixel.
    pub const BYTES_PER_PIXEL: usize = 3;

    /// The underlying image reader.
    pub closed spec fn reader(&self) -> ImageReader<T, N> {
        self.image.bytes
    }

    /// The length of a line in bytes.
    pub closed spec fn line_len(&self) -> nat {
        self.strip_line_len as nat
    }

    /// The refresh rate of a single strip line.
    pub closed spec fn rate(&self) -> Hertz {
        self.line_rate
    }

    /// Whether the lines are read from the image start, with the block buffer valid: the
    /// lines then come in order from the first, and round again after the last.
    pub closed spec fn from_start(&self) -> bool {
        self.from_start@
    }

    /// Lines read since the iterator was made.
    pub closed spec fn lines_read(&self) -> nat {
        self.lines_read@
    }

    /// Number of lines of the image.
    pub open spec fn lines_count(&self) -> nat {
        self.reader().len() / self.line_len()
    }

    /// Reading from the image start, the read position is where the lines read so far
    /// leave it.
    pub closed spec fn cycle_ok(&self) -> bool {
        self.from_start@ ==> {
            &&& self.image.bytes.cache_ok()
            &&& self.image.bytes.len() % (self.strip_line_len as nat) == 0
            &&& self.image.bytes.len() >= self.strip_line_len
            &&& self.image.bytes.position() == spec_position_after_lines(
                self.lines_read@,
                self.image.bytes.len(),
                self.strip_line_len as nat,
            )
        }
    }

    /// The iterator is well formed.
    pub closed spec fn wf(&self) -> bool {
        &&& self.strip_line_len > 0
        &&& self.strip_line_buf@.len() >= self.strip_line_len
        &&& self.image.bytes.wf()
    }

    /// Creates a new image lines iterator.
    ///
    /// The image must hold at least one line from its read position, and a whole number of
    /// lines; the buffer must hold a line. A single line runs `strip_len` times faster than
    /// the image, and that rate must fit in a `u32`.
    pub fn new(image: Image<ImageReader<T, N>>, strip_len: u16, strip_line_buf: Vec<u8>) -> (r: Self)
        requires
            image.bytes.wf(),
            image.refresh_rate.0 * strip_len <= u32::MAX,
            strip_len > 0,
            strip_len * 3 <= image.bytes.len() - image.bytes.position(),
            (image.bytes.len() - image.bytes.position()) % (strip_len * 3) as int == 0,
            strip_line_buf@.len() >= strip_len * 3,
        ensures
            r.wf(),
            r.reader() == image.bytes,
            r.line_len() == strip_len * 3,
            r.rate() == Hertz((image.refresh_rate.0 * strip_len) as u32),
            r.from_start() == (image.bytes.position() == 0 && image.bytes.cache_ok()),
            r.lines_read() == 0,
            r.cycle_ok(),
    {
        let line_rate = Hertz(image.refresh_rate.0 * strip_len as u32);
        let strip_len: usize = strip_len as usize;
        let strip_line_len = strip_len * Self::BYTES_PER_PIXEL;
        let ghost from_start = image.bytes.position() == 0 && image.bytes.cache_ok();
        Self {
            image,
            strip_line_len,
            strip_line_buf,
            line_rate,
            from_start: Ghost(from_start),
            lines_read: Ghost(0),
        }
    }

    /// Returns the refresh rate of the single strip line.
    pub fn refresh_rate(&self) -> (hz: Hertz)
        ensures
            hz == self.rate(),
    {
        self.line_rate
    }

    /// Reads the next image line into the line buffer, rewinding at the image end.
    fn fill_next_line(&mut self) -> (r: Result<(), ReadExactError<T::Error>>)
        requires
            N > 0,
            old(self).wf(),
            old(self).reader().fits(),
        ensures
            final(self).wf(),
            final(self).line_len() == old(self).line_len(),
            final(self).rate() == old(self).rate(),
            final(self).from_start == old(self).from_start,
            final(self).lines_read == old(self).lines_read,
            final(self).reader().len() == old(self).reader().len(),
            final(self).reader().device() == old(self).reader().device(),
            final(self).reader().infallible() == old(self).reader().infallible(),
            old(self).reader().cache_ok() ==> final(self).reader().cache_ok(),
            ({
                let len = old(self).reader().len();
                let start = spec_line_start(old(self).reader().position(), len);
                let ll = old(self).line_len();
                &&& old(self).reader().infallible() ==> !(r matches Err(ReadExactError::Other(_)))
                &&& old(self).reader().position() != len && old(self).reader().reads_no_block(ll as int)
                    ==> !(r matches Err(ReadExactError::Other(_)))
                &&& r is Ok ==> start + ll <= len && final(self).reader().position() == start + ll
                &&& r matches Err(ReadExactError::UnexpectedEof) ==> start + ll > len
                &&& r is Ok && (old(self).reader().cache_ok() || start == 0) ==> final(self).strip_line_buf@.subrange(0, ll as int) == old(self).reader().device().subrange(
                    start as int,
                    (start + ll) as int,
                )
            }),
    {
        let ghost pre = *self;
        // In this case we reached the end of file and have to rewind to the beginning
        if self.image.bytes.bytes_remaining() == 0 {
            match self.image.bytes.rewind() {
                Ok(()) => {},
                Err(e) => {
                    return Err(ReadExactError::Other(e));
                },
            }
        }
        // Fill the buffer with by the bytes of the next image line
        let ghost mid = self.image;
        let line_len = self.strip_line_len;
        let r = self.image.bytes.read_exact_prefix(self.strip_line_buf.as_mut_slice(), line_len);
        proof {
            let len = pre.image.bytes.len();
            let start = spec_line_start(pre.image.bytes.position(), len);
            let ll = line_len as int;
            assert(mid.bytes.position() == start);
            assert(mid.bytes.device() == pre.image.bytes.device());
            assert(pre.image.bytes.cache_ok() || start == 0 ==> mid.bytes.cache_ok());
            if r is Ok {
                assert(ll <= len - start);
                if pre.image.bytes.cache_ok() || start == 0 {
                    assert(self.strip_line_buf@.subrange(0, ll) == mid.bytes.device().subrange(start as int, start + ll));
                }
            }
        }
        r
    }

    /// Reads and returns a next image line.
    pub fn next_line(&mut self) -> (r: Result<Vec<Rgb8>, ReadExactError<T::Error>>)
        requires
            N > 0,
            old(self).wf(),
            old(self).cycle_ok(),
            old(self).reader().fits(),
        ensures
            final(self).wf(),
            final(self).cycle_ok(),
            final(self).from_start() == (old(self).from_start() && r is Ok),
            r is Ok ==> final(self).lines_read() == old(self).lines_read() + 1,
            old(self).from_start() && old(self).reader().infallible() ==> r is Ok,
            r is Ok && old(self).from_start() ==> r->Ok_0@ == spec_line(
                old(self).reader().device(),
                old(self).line_len(),
                old(self).lines_read() % old(self).lines_count(),
            ),
            final(self).reader().fits(),
            final(self).line_len() == old(self).line_len(),
            final(self).rate() == old(self).rate(),
            final(self).reader().len() == old(self).reader().len(),
            final(self).reader().device() == old(self).reader().device(),
            final(self).reader().infallible() == old(self).reader().infallible(),
            old(self).reader().cache_ok() ==> final(self).reader().cache_ok(),
            ({
                let len = old(self).reader().len();
                let start = spec_line_start(old(self).reader().position(), len);
                let ll = old(self).line_len();
                &&& old(self).reader().infallible() ==> !(r matches Err(ReadExactError::Other(_)))
                &&& old(self).reader().position() != len && old(self).reader().reads_no_block(ll as int)
                    ==> !(r matches Err(ReadExactError::Other(_)))
                &&& r is Ok ==> start + ll <= len && final(self).reader().position() == start + ll
                &&& r matches Err(ReadExactError::UnexpectedEof) ==> start + ll > len
                &&& r is Ok && (old(self).reader().cache_ok() || start == 0) ==> r->Ok_0@
                    == spec_pixels(old(self).reader().device().subrange(start as int, (start + ll) as int))
            }),
    {
        let ghost pre = *self;
        proof {
            if pre.from_start@ {
                let len = pre.image.bytes.len();
                let ll = pre.strip_line_len as nat;
                let count = len / ll;
                vstd::arithmetic::div_mod::lemma_fundamental_div_mod(len as int, ll as int);
                assert(len == count * ll) by (nonlinear_arith)
                    requires
                        len == ll * count + 0,
                ;
                assert(count > 0) by (nonlinear_arith)
                    requires
                        len == count * ll,
                        len >= ll,
                        ll > 0,
                ;
                lemma_line_at_step(pre.image.bytes.device(), count, ll, pre.lines_read@);
            }
        }
        match self.fill_next_line() {
            Ok(()) => {},
            Err(e) => {
                self.from_start = Ghost(false);
                return Err(e);
            },
        }
        let line_len = self.strip_line_len;
        let buf = self.strip_line_buf.as_slice();
        let line = &buf[0..line_len];
        self.lines_read = Ghost(pre.lines_read@ + 1);
        Ok(bytes_to_pixels(line))
    }
}

/// The read position after `k` lines were read from the start of an image of `len` bytes,
/// `line_len` bytes per line, rewinding at the end as `next_line` does.
pub open spec fn spec_position_after_lines(k: nat, len: nat, line_len: nat) -> nat
    decreases k,
{
    if k == 0 {
        0
    } else {
        spec_line_start(spec_position_after_lines((k - 1) as nat, len, line_len), len) + line_len
    }
}

/// Lines come round in a cycle: reading an image of `count` whole lines from its start,
/// the line read at step `k` (counting from 0) starts at line `k mod count`.
pub proof fn lemma_lines_cycle(k: nat, count: nat, line_len: nat)
    requires
        count > 0,
        line_len > 0,
    ensures
        spec_line_start(spec_position_after_lines(k, count * line_len, line_len), count * line_len)
            == (k % count) * line_len,
        k > 0 ==> spec_position_after_lines(k, count * line_len, line_len) == ((k - 1) % (
        count as int) + 1) * line_len,
    decreases k,
{
    let len = count * line_len;
    if k == 0 {
        assert(0nat % count == 0) by (nonlinear_arith)
            requires
                count > 0,
        ;
    } else {
        lemma_lines_cycle((k - 1) as nat, count, line_len);
        let prev = (k - 1) as nat;
        // The line read at step k - 1 starts at line (k - 1) mod count.
        let r = prev % count;
        assert(0 <= r < count) by (nonlinear_arith)
            requires
                count > 0,
                r == prev % count,
        ;
        assert(spec_position_after_lines(k, len, line_len) == (r + 1) * line_len) by (
        nonlinear_arith)
            requires
                spec_position_after_lines(k, len, line_len) == spec_line_start(
                    spec_position_after_lines(prev, len, line_len),
                    len,
                ) + line_len,
                spec_line_start(spec_position_after_lines(prev, len, line_len), len) == r
                    * line_len,
        ;
        if r + 1 == count {
            assert(k % count == 0) by {
                vstd::arithmetic::div_mod::lemma_fundamental_div_mod(prev as int, count as int);
                let q = prev as int / count as int;
                assert(k as int == (q + 1) * count + 0) by (nonlinear_arith)
                    requires
                        prev == count * q + r,
                        r + 1 == count,
                        k == prev + 1,
                ;
                vstd::arithmetic::div_mod::lemma_fundamental_div_mod_converse(
                    k as int,
                    count as int,
                    q + 1,
                    0,
                );
            }
            assert((r + 1) * line_len == len);
            assert((k % count) * line_len == 0);
        } else {
            assert(k % count == r + 1) by {
                vstd::arithmetic::div_mod::lemma_fundamental_div_mod(prev as int, count as int);
                let q = prev as int / count as int;
                assert(k as int == q * count + (r + 1)) by (nonlinear_arith)
                    requires
                        prev == count * q + r,
                        k == prev + 1,
                ;
                vstd::arithmetic::div_mod::lemma_fundamental_div_mod_converse(
                    k as int,
                    count as int,
                    q,
                    (r + 1) as int,
                );
            }
            assert((r + 1) * line_len < len) by (nonlinear_arith)
                requires
                    r + 1 < count,
                    line_len > 0,
                    len == count * line_len,
            ;
        }
    }
}

/// Line `i` of an image, `line_len` bytes per line, as pixels.
pub open spec fn spec_line(image: Seq<u8>, line_len: nat, i: nat) -> Seq<Rgb8> {
    spec_pixels(image.subrange((i * line_len) as int, ((i + 1) * line_len) as int))
}

/// The line that `next_line` gives at its `k`-th call (counting from 0) over an image of
/// `count` whole lines read from its start is line `k mod count`: the call starts at the
/// position left by the calls before it, reads a whole line that lies inside the image, and
/// leaves the position that the next call starts from. So calls `k` and `k + count` give
/// the same line.
pub proof fn lemma_line_at_step(image: Seq<u8>, count: nat, line_len: nat, k: nat)
    requires
        count > 0,
        line_len > 0,
        image.len() >= count * line_len,
    ensures
        ({
            let len = count * line_len;
            let start = spec_line_start(spec_position_after_lines(k, len, line_len), len);
            &&& start + line_len <= len
            &&& spec_position_after_lines(k + 1, len, line_len) == start + line_len
            &&& spec_pixels(image.subrange(start as int, (start + line_len) as int)) == spec_line(
                image,
                line_len,
                k % count,
            )
            &&& spec_line(image, line_len, k % count) == spec_line(
                image,
                line_len,
                (k + count) % count,
            )
        }),
{
    lemma_lines_cycle(k, count, line_len);
    let i = k % count;
    assert(i < count) by {
        vstd::arithmetic::div_mod::lemma_mod_bound(k as int, count as int);
    }
    assert((i + 1) * line_len <= count * line_len) by (nonlinear_arith)
        requires
            i + 1 <= count,
    ;
    assert((i * line_len) + line_len == (i + 1) * line_len) by (nonlinear_arith);
    assert(((k + count) as int) % (count as int) == (k as int) % (count as int)) by {
        vstd::arithmetic::div_mod::lemma_mod_add_multiples_vanish(k as int, count as int);
    }
}

/// A read takes no more than the image has left, the buffer holds and the current block
/// has left; it takes nothing only when the image or the buffer is exhausted, and otherwise
/// takes all that the tightest of the three allows.
pub proof fn lemma_read_len(remaining: int, available: int, left_in_block: int)
    requires
        remaining >= 0,
        available >= 0,
        left_in_block > 0,
    ensures
        0 <= spec_read_len(remaining, available, left_in_block) <= remaining,
        spec_read_len(remaining, available, left_in_block) <= available,
        spec_read_len(remaining, available, left_in_block) <= left_in_block,
        spec_read_len(remaining, available, left_in_block) == 0 <==> (remaining == 0 || available
            == 0),
        remaining > 0 && available > 0 ==> (spec_read_len(remaining, available, left_in_block)
            == remaining || spec_read_len(remaining, available, left_in_block) == available
            || spec_read_len(remaining, available, left_in_block) == left_in_block),
{
}

} // verus!
