//! Packet framing: an eight byte little endian prefix with the lengths of the header
//! and of the payload that follow it.

use endian_codec::{DecodeLE, EncodeLE};
use vstd::prelude::*;

verus! {

/// `u32::encode_as_le_bytes` of `endian_codec`: copies the four little endian bytes of
/// `value` into `bytes`, which must be exactly four bytes long (it panics otherwise).
#[verifier::external_body]
pub(crate) fn encode_u32_le(value: u32, bytes: &mut [u8])
    requires
        old(bytes)@.len() == 4,
    ensures
        final(bytes)@ == vstd::bytes::spec_u32_to_le_bytes(value),
{
    value.encode_as_le_bytes(bytes)
}

/// `u32::decode_from_le_bytes` of `endian_codec`: reads a `u32` from exactly four little
/// endian bytes (it panics on any other length).
#[verifier::external_body]
pub(crate) fn decode_u32_le(bytes: &[u8]) -> (value: u32)
    requires
        bytes@.len() == 4,
    ensures
        value == vstd::bytes::spec_u32_from_le_bytes(bytes@),
{
    <u32 as DecodeLE>::decode_from_le_bytes(bytes)
}

} // verus!

verus! {

/// The fixed prefix of every message: the lengths of the encoded header and of the payload.
#[derive(Clone, Copy, PartialEq, Eq, Structural, Debug)]
pub struct Packet {
    pub header_len: u32,
    pub payload_len: u32,
}

/// The eight bytes that encode a packet: both lengths in little endian order.
pub open spec fn spec_packet_bytes(p: Packet) -> Seq<u8> {
    vstd::bytes::spec_u32_to_le_bytes(p.header_len) + vstd::bytes::spec_u32_to_le_bytes(
        p.payload_len,
    )
}

/// The packet that eight bytes encode.
pub open spec fn spec_packet_from_bytes(s: Seq<u8>) -> Packet {
    Packet {
        header_len: vstd::bytes::spec_u32_from_le_bytes(s.subrange(0, 4)),
        payload_len: vstd::bytes::spec_u32_from_le_bytes(s.subrange(4, 8)),
    }
}

/// Errors of reading a packet or a header from a byte source.
#[derive(Clone, Copy, PartialEq, Eq, Structural, Debug)]
pub enum PacketReadError<E> {
    /// Unable to decode message.
    Decode,
    /// Unexpected end of file
    UnexpectedEof,
    /// Other error
    Other(E),
}

impl Packet {
    /// Number of bytes of an encoded packet.
    pub const PACKED_LEN: usize = 8;

    /// Max length of a packet together with the encoded header that follows it: the largest
    /// encoded header (21 bytes) plus the packet itself.
    pub const MAX_LEN: usize = 29;

    /// Length of the encoded header.
    pub fn header_len(self) -> (len: usize)
        ensures
            len == self.header_len,
    {
        self.header_len as usize
    }

    /// Length of the payload.
    pub fn payload_len(self) -> (len: usize)
        ensures
            len == self.payload_len,
    {
        self.payload_len as usize
    }

    /// Returns true if a payload follows the header.
    pub fn has_payload(self) -> (b: bool)
        ensures
            b == (self.payload_len > 0),
    {
        self.payload_len > 0
    }

    /// Writes the packet as eight little endian bytes.
    pub fn encode_as_le_bytes(&self, bytes: &mut [u8])
        requires
            old(bytes)@.len() == 8,
        ensures
            final(bytes)@ == spec_packet_bytes(*self),
    {
        let (first, second) = bytes.split_at_mut(4);
        encode_u32_le(self.header_len, first);
        encode_u32_le(self.payload_len, second);
    }

    /// Reads a packet from eight little endian bytes.
    pub fn decode_from_le_bytes(bytes: &[u8]) -> (p: Self)
        requires
            bytes@.len() == 8,
        ensures
            p == spec_packet_from_bytes(bytes@),
    {
        let (first, second) = bytes.split_at(4);
        Packet { header_len: decode_u32_le(first), payload_len: decode_u32_le(second) }
    }

    /// Reads a packet from the beginning of the given bytes.
    pub fn read<E>(bytes: &[u8]) -> (r: Result<Self, PacketReadError<E>>)
        ensures
            bytes@.len() < 8 ==> r == Err::<Packet, PacketReadError<E>>(
                PacketReadError::UnexpectedEof,
            ),
            bytes@.len() >= 8 ==> r == Ok::<Packet, PacketReadError<E>>(
                spec_packet_from_bytes(bytes@.subrange(0, 8)),
            ),
    {
        if bytes.len() < Self::PACKED_LEN {
            return Err(PacketReadError::UnexpectedEof);
        }
        Ok(Self::decode_from_le_bytes(&bytes[0..Self::PACKED_LEN]))
    }

    /// Takes the encoded header that follows this packet from the given bytes, together
    /// with the payload length.
    pub fn header_frame<'a, E>(self, bytes: &'a [u8]) -> (r: Result<
        (&'a [u8], usize),
        PacketReadError<E>,
    >)
        requires
            self.header_len <= Self::MAX_LEN,
        ensures
            bytes@.len() < self.header_len ==> r is Err && r->Err_0 == PacketReadError::<
                E,
            >::UnexpectedEof,
            bytes@.len() >= self.header_len ==> r is Ok && r->Ok_0.0@ == bytes@.subrange(
                0,
                self.header_len as int,
            ) && r->Ok_0.1 == self.payload_len,
    {
        let header_len = self.header_len();
        if bytes.len() < header_len {
            return Err(PacketReadError::UnexpectedEof);
        }
        Ok((&bytes[0..header_len], self.payload_len()))
    }

    /// Checks that the encoded header fits into the receive buffer, returning its length.
    pub fn checked_header_len(self) -> (r: Result<usize, crate::errors::Error>)
        ensures
            self.header_len <= Self::MAX_LEN ==> r == Ok::<usize, crate::errors::Error>(
                self.header_len as usize,
            ),
            self.header_len > Self::MAX_LEN ==> r == Err::<usize, crate::errors::Error>(
                crate::errors::Error::Decode,
            ),
    {
        let header_len = self.header_len();
        if header_len > Self::MAX_LEN {
            return Err(crate::errors::Error::Decode);
        }
        Ok(header_len)
    }
}

/// The bytes of a message frame: the packet, then the encoded header.
pub open spec fn spec_frame(header: Seq<u8>, payload_len: usize) -> Seq<u8> {
    spec_packet_bytes(Packet { header_len: header.len() as u32, payload_len: payload_len as u32 })
        + header
}

/// Writes the frame of a message into `buf`: the packet with the header and payload
/// lengths, then the encoded header. Returns the number of bytes written.
///
/// The payload length is written modulo 2^32.
pub fn encode_frame(header: &[u8], payload_len: usize, buf: &mut [u8]) -> (n: usize)
    requires
        old(buf)@.len() >= Packet::MAX_LEN,
        header@.len() + Packet::PACKED_LEN <= Packet::MAX_LEN,
    ensures
        n == header@.len() + Packet::PACKED_LEN,
        final(buf)@.len() == old(buf)@.len(),
        final(buf)@.subrange(0, n as int) == spec_frame(header@, payload_len),
        final(buf)@.subrange(n as int, final(buf)@.len() as int) == old(buf)@.subrange(
            n as int,
            old(buf)@.len() as int,
        ),
{
    let header_len = header.len();
    let packet = Packet { header_len: header_len as u32, payload_len: payload_len as u32 };
    let ghost old_buf = buf@;
    let mut packet_bytes = [0u8; 8];
    packet.encode_as_le_bytes(&mut packet_bytes);
    let mut k: usize = 0;
    while k < Packet::PACKED_LEN
        invariant
            k <= 8,
            packet_bytes@ == spec_packet_bytes(packet),
            buf@.len() == old_buf.len(),
            old_buf.len() >= 29,
            forall|j: int| 0 <= j < k ==> buf@[j] == packet_bytes@[j],
            forall|j: int| k <= j < buf@.len() ==> buf@[j] == old_buf[j],
        decreases 8 - k,
    {
        buf[k] = packet_bytes[k];
        k = k + 1;
    }
    assert(buf@.subrange(0, 8) =~= spec_packet_bytes(packet));
    let mut i: usize = 0;
    while i < header_len
        invariant
            i <= header_len,
            header_len == header@.len(),
            header_len + 8 <= 29,
            buf@.len() == old_buf.len(),
            old_buf.len() >= 29,
            buf@.subrange(0, 8) == spec_packet_bytes(packet),
            forall|j: int| 0 <= j < i ==> buf@[8 + j] == header@[j],
            forall|j: int| 8 + i <= j < buf@.len() ==> buf@[j] == old_buf[j],
        decreases header_len - i,
    {
        buf[Packet::PACKED_LEN + i] = header[i];
        i = i + 1;
    }
    let n = Packet::PACKED_LEN + header_len;
    assert(buf@.subrange(0, n as int) =~= spec_frame(header@, payload_len));
    assert(buf@.subrange(n as int, buf@.len() as int) =~= old_buf.subrange(
        n as int,
        old_buf.len() as int,
    ));
    n
}

/// Decoding the bytes of an encoded packet gives the packet back.
pub proof fn lemma_packet_roundtrip(p: Packet)
    ensures
        spec_packet_bytes(p).len() == 8,
        spec_packet_from_bytes(spec_packet_bytes(p)) == p,
{
    vstd::bytes::lemma_auto_spec_u32_to_from_le_bytes();
    let s = spec_packet_bytes(p);
    assert(s.subrange(0, 4) =~= vstd::bytes::spec_u32_to_le_bytes(p.header_len));
    assert(s.subrange(4, 8) =~= vstd::bytes::spec_u32_to_le_bytes(p.payload_len));
}

/// A frame written by `encode_frame` reads back: its packet holds the header length and
/// the payload length (modulo 2^32), and the header follows the packet.
pub proof fn lemma_frame_roundtrip(header: Seq<u8>, payload_len: usize)
    requires
        header.len() + 8 <= 29,
    ensures
        spec_frame(header, payload_len).len() == 8 + header.len(),
        spec_packet_from_bytes(spec_frame(header, payload_len).subrange(0, 8)) == (Packet {
            header_len: header.len() as u32,
            payload_len: payload_len as u32,
        }),
        spec_frame(header, payload_len).subrange(8, 8 + header.len() as int) == header,
{
    let p = Packet { header_len: header.len() as u32, payload_len: payload_len as u32 };
    lemma_packet_roundtrip(p);
    let f = spec_frame(header, payload_len);
    assert(f.subrange(0, 8) =~= spec_packet_bytes(p));
    assert(f.subrange(8, 8 + header.len() as int) =~= header);
}

#[verifier::external_type_specification]
#[verifier::external_body]
#[verifier::reject_recursive_types(T)]
pub struct ExHeaplessVec<T, const N: usize>(heapless::Vec<T, N>);

/// The bytes that a `heapless::Vec` of packet capacity holds, in order.
pub uninterp spec fn held_bytes(v: heapless::Vec<u8, 8>) -> Seq<u8>;

/// `heapless::Vec::new`: an empty vector.
#[verifier::external_body]
fn packet_vec_new() -> (v: heapless::Vec<u8, 8>)
    ensures
        held_bytes(v) == Seq::<u8>::empty(),
{
    heapless::Vec::new()
}

/// `heapless::Vec::as_slice`: the bytes held, in order.
#[verifier::external_body]
fn packet_vec_bytes(v: &heapless::Vec<u8, 8>) -> (s: &[u8])
    ensures
        s@ == held_bytes(*v),
{
    v.as_slice()
}

/// `heapless::Vec::extend_from_slice`: appends all of `other` when it fits in the capacity
/// of eight, and otherwise changes nothing and fails.
#[verifier::external_body]
fn packet_vec_extend(v: &mut heapless::Vec<u8, 8>, other: &[u8]) -> (r: Result<(), ()>)
    ensures
        held_bytes(*old(v)).len() + other@.len() <= 8 ==> r is Ok && held_bytes(*final(v))
            == held_bytes(*old(v)) + other@,
        held_bytes(*old(v)).len() + other@.len() > 8 ==> r is Err && held_bytes(*final(v))
            == held_bytes(*old(v)),
{
    v.extend_from_slice(other)
}

/// `heapless::Vec::is_full`: whether the vector holds eight bytes, its capacity.
#[verifier::external_body]
fn packet_vec_is_full(v: &heapless::Vec<u8, 8>) -> (b: bool)
    ensures
        b == (held_bytes(*v).len() == 8),
{
    v.is_full()
}

/// `heapless::Vec::clear`: removes all bytes.
#[verifier::external_body]
fn packet_vec_clear(v: &mut heapless::Vec<u8, 8>)
    ensures
        held_bytes(*final(v)) == Seq::<u8>::empty(),
{
    v.clear()
}

/// Collects the bytes of a packet that arrive in pieces.
pub struct PacketHeaderBuf {
    bytes: heapless::Vec<u8, 8>,
}

impl PacketHeaderBuf {
    /// The bytes collected so far.
    pub closed spec fn collected(&self) -> Seq<u8> {
        held_bytes(self.bytes)
    }

    /// Less than a packet's worth of bytes is held.
    pub closed spec fn wf(&self) -> bool {
        held_bytes(self.bytes).len() < 8
    }

    /// An empty buffer.
    pub fn new() -> (b: Self)
        ensures
            b.wf(),
            b.collected() == Seq::<u8>::empty(),
    {
        Self { bytes: packet_vec_new() }
    }

    /// The number of bytes still missing from the packet.
    pub fn bytes_remaining(&self) -> (n: usize)
        requires
            self.wf(),
        ensures
            n == 8 - self.collected().len(),
            n > 0,
    {
        Packet::PACKED_LEN - packet_vec_bytes(&self.bytes).len()
    }

    /// Adds received bytes; once the packet is complete it is decoded and the buffer
    /// starts over.
    pub fn extend(&mut self, received: &[u8]) -> (p: Option<Packet>)
        requires
            old(self).wf(),
            old(self).collected().len() + received@.len() <= 8,
        ensures
            final(self).wf(),
            old(self).collected().len() + received@.len() < 8 ==> p is None && final(self).collected() == old(self).collected() + received@,
            old(self).collected().len() + received@.len() == 8 ==> p == Some(
                spec_packet_from_bytes(old(self).collected() + received@),
            ) && final(self).collected() == Seq::<u8>::empty(),
    {
        // The received bytes fit: no more arrive than the packet still misses.
        let _ = packet_vec_extend(&mut self.bytes, received);
        if packet_vec_is_full(&self.bytes) {
            let packet = Packet::decode_from_le_bytes(packet_vec_bytes(&self.bytes));
            packet_vec_clear(&mut self.bytes);
            Some(packet)
        } else {
            None
        }
    }
}

/// A packet is laid out as the little endian bytes of its header length followed by those
/// of its payload length, and eight bytes are read back in the same order.
pub proof fn lemma_packet_layout(p: Packet, a: Seq<u8>, b: Seq<u8>)
    requires
        a.len() == 4,
        b.len() == 4,
    ensures
        spec_packet_bytes(p).len() == 8,
        spec_packet_bytes(p).subrange(0, 4) == vstd::bytes::spec_u32_to_le_bytes(p.header_len),
        spec_packet_bytes(p).subrange(4, 8) == vstd::bytes::spec_u32_to_le_bytes(p.payload_len),
        spec_packet_from_bytes(a + b).header_len == vstd::bytes::spec_u32_from_le_bytes(a),
        spec_packet_from_bytes(a + b).payload_len == vstd::bytes::spec_u32_from_le_bytes(b),
{
    vstd::bytes::lemma_auto_spec_u32_to_from_le_bytes();
    let bytes = spec_packet_bytes(p);
    assert(bytes.subrange(0, 4) =~= vstd::bytes::spec_u32_to_le_bytes(p.header_len));
    assert(bytes.subrange(4, 8) =~= vstd::bytes::spec_u32_to_le_bytes(p.payload_len));
    assert((a + b).subrange(0, 4) =~= a);
    assert((a + b).subrange(4, 8) =~= b);
}

/// A packet that arrives in two pieces, split anywhere, is assembled back.
pub proof fn lemma_packet_reassembled(p: Packet, split: int)
    requires
        0 <= split < 8,
    ensures
        ({
            let bytes = spec_packet_bytes(p);
            spec_packet_from_bytes(bytes.subrange(0, split) + bytes.subrange(split, 8)) == p
        }),
{
    lemma_packet_roundtrip(p);
    let bytes = spec_packet_bytes(p);
    assert(bytes.subrange(0, split) + bytes.subrange(split, 8) =~= bytes);
}

} // verus!
