//! Cyberpixie protocol messages: a header and an optional payload.

use vstd::prelude::*;

use crate::io::ExactSizeRead;

verus! {

/// Incoming message payload reader: a reader limited to the payload bytes.
#[derive(Clone, Copy, Debug)]
pub struct PayloadReader<T> {
    payload_len: usize,
    bytes_remaining: usize,
    inner: T,
}

impl<T> PayloadReader<T> {
    /// Length of the payload.
    pub closed spec fn spec_len(&self) -> nat {
        self.payload_len as nat
    }

    /// Bytes of the payload not read yet.
    pub closed spec fn spec_remaining(&self) -> nat {
        self.bytes_remaining as nat
    }

    /// The underlying reader.
    pub closed spec fn spec_inner(&self) -> T {
        self.inner
    }

    /// The reader once `n` more payload bytes were read from the underlying reader.
    pub closed spec fn spec_after_read(self, n: nat) -> Self {
        PayloadReader { bytes_remaining: (self.bytes_remaining - n) as usize, ..self }
    }

    /// The reader once reads of the given sizes were made, in order.
    pub open spec fn spec_after_reads(self, sizes: Seq<nat>) -> Self
        decreases sizes.len(),
    {
        if sizes.len() == 0 {
            self
        } else {
            self.spec_after_reads(sizes.drop_last()).spec_after_read(sizes.last())
        }
    }

    /// No more payload bytes remain than the payload has.
    pub open spec fn wf(&self) -> bool {
        self.spec_remaining() <= self.spec_len()
    }

    /// Creates a new message payload reader.
    pub fn new(inner: T, payload_len: usize) -> (r: Self)
        ensures
            r.wf(),
            r.spec_len() == payload_len,
            r.spec_remaining() == payload_len,
            r.spec_inner() == inner,
    {
        Self { payload_len, bytes_remaining: payload_len, inner }
    }

    /// Returns payload length.
    pub fn len(&self) -> (n: usize)
        ensures
            n == self.spec_len(),
    {
        self.payload_len
    }

    /// Returns true if there is no payload.
    pub fn is_empty(&self) -> (b: bool)
        ensures
            b == (self.spec_len() == 0),
    {
        self.payload_len == 0
    }

    /// How many bytes a read into a buffer of `buf_len` bytes may ask from the underlying
    /// reader: no more than the payload bytes that remain.
    pub fn read_limit(&self, buf_len: usize) -> (n: usize)
        ensures
            n == vstd::math::min(buf_len as int, self.spec_remaining() as int),
    {
        if buf_len > self.bytes_remaining {
            self.bytes_remaining
        } else {
            buf_len
        }
    }

    /// Records that `bytes_read` payload bytes were read from the underlying reader.
    pub fn consume(&mut self, bytes_read: usize)
        requires
            bytes_read <= old(self).spec_remaining(),
        ensures
            old(self).wf() ==> final(self).wf(),
            *final(self) == old(self).spec_after_read(bytes_read as nat),
            final(self).spec_remaining() == old(self).spec_remaining() - bytes_read,
            final(self).spec_len() == old(self).spec_len(),
            final(self).spec_inner() == old(self).spec_inner(),
    {
        self.bytes_remaining = self.bytes_remaining - bytes_read;
    }

    /// The underlying reader, to read payload bytes from.
    pub fn inner_mut(&mut self) -> (r: &mut T)
        ensures
            *r == old(self).spec_inner(),
            final(self).spec_inner() == *final(r),
            final(self).spec_len() == old(self).spec_len(),
            final(self).spec_remaining() == old(self).spec_remaining(),
    {
        &mut self.inner
    }
}

/// The total size of a sequence of reads.
pub open spec fn total_read(sizes: Seq<nat>) -> nat
    decreases sizes.len(),
{
    if sizes.len() == 0 {
        0
    } else {
        total_read(sizes.drop_last()) + sizes.last()
    }
}

/// Reads never change the payload length: after any sequence of reads, each asking no more
/// than the bytes that remain, the length is the same and the bytes that remain are fewer
/// by the bytes read.
pub proof fn lemma_reads_keep_len<T>(r: PayloadReader<T>, sizes: Seq<nat>)
    requires
        r.wf(),
        total_read(sizes) <= r.spec_remaining(),
    ensures
        r.spec_after_reads(sizes).wf(),
        r.spec_after_reads(sizes).spec_len() == r.spec_len(),
        r.spec_after_reads(sizes).spec_remaining() == r.spec_remaining() - total_read(sizes),
        r.spec_after_reads(sizes).spec_inner() == r.spec_inner(),
    decreases sizes.len(),
{
    if sizes.len() > 0 {
        lemma_reads_keep_len(r, sizes.drop_last());
    }
}

impl<T> ExactSizeRead for PayloadReader<T> {
    open spec fn remaining(&self) -> nat {
        self.spec_remaining()
    }

    fn bytes_remaining(&self) -> (n: usize) {
        self.bytes_remaining
    }
}

impl<'a> PayloadReader<&'a [u8]> {
    /// A payload made of the given bytes.
    pub fn from_bytes(inner: &'a [u8]) -> (r: Self)
        ensures
            r.spec_len() == inner@.len(),
            r.spec_remaining() == inner@.len(),
            r.spec_inner() == inner,
    {
        Self::new(inner, inner.len())
    }
}

/// Cyberpixie protocol message io adapter.
///
/// This adapter can be used both for receiving messages and for sending, depending on the goals.
pub struct Message<R, H> {
    /// Message header.
    pub header: H,
    /// Message payload.
    pub payload: Option<PayloadReader<R>>,
}

impl<R, H> Message<R, H> {
    /// Splits the message into its header, its payload length (zero without a payload)
    /// and its payload.
    pub fn into_parts(self) -> (r: (H, usize, Option<PayloadReader<R>>))
        ensures
            r.0 == self.header,
            r.2 == self.payload,
            r.1 == match self.payload {
                Some(p) => p.spec_len(),
                None => 0,
            },
    {
        match self.payload {
            Some(reader) => {
                let len = reader.len();
                (self.header, len, Some(reader))
            },
            None => (self.header, 0, None),
        }
    }
}

} // verus!
