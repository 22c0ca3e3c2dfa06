//! The wire format of a chunk on the serial link.
//!
//! A chunk is a six-byte header followed by its payload. The header holds
//! the port, the payload length and a checksum, each a big-endian `u16`.
//! The checksum is the CRC-16/USB of the header, with the checksum field
//! set to zero, followed by the payload.
use vstd::prelude::*;

use crate::checksum::{checksum, crc16_usb};
use crate::protocol::HEADER_LENGTH;

verus! {

/// Big-endian bytes of a `u16`.
pub open spec fn be16(v: u16) -> Seq<u8> {
    seq![(v / 256) as u8, (v % 256) as u8]
}

/// The `u16` whose big-endian bytes are `hi`, `lo`.
pub open spec fn from_be16(hi: u8, lo: u8) -> u16 {
    (hi * 256 + lo) as u16
}

/// Header bytes for the given fields.
pub open spec fn header_bytes(port: u16, chunk_length: u16, checksum: u16) -> Seq<u8> {
    be16(port) + be16(chunk_length) + be16(checksum)
}

/// The port field of a header.
pub open spec fn header_port(h: Seq<u8>) -> u16 {
    from_be16(h[0], h[1])
}

/// The payload-length field of a header.
pub open spec fn header_length(h: Seq<u8>) -> u16 {
    from_be16(h[2], h[3])
}

/// The checksum field of a header.
pub open spec fn header_checksum(h: Seq<u8>) -> u16 {
    from_be16(h[4], h[5])
}

/// The bytes that the checksum of a chunk covers: the header with a zero
/// checksum field, then the payload.
pub open spec fn checksum_input(port: u16, data: Seq<u8>) -> Seq<u8> {
    header_bytes(port, data.len() as u16, 0) + data
}

/// The checksum that a chunk with this port and payload carries.
pub open spec fn frame_checksum(port: u16, data: Seq<u8>) -> u16 {
    crc16_usb(checksum_input(port, data))
}

/// The complete encoding of a chunk.
pub open spec fn frame(port: u16, data: Seq<u8>) -> Seq<u8> {
    header_bytes(port, data.len() as u16, frame_checksum(port, data)) + data
}

/// Reading a `u16` back from its big-endian bytes gives the same value, and
/// every pair of bytes is the encoding of the value read from it.
pub proof fn lemma_be16_round_trip(v: u16, hi: u8, lo: u8)
    ensures
        be16(v).len() == 2,
        from_be16(be16(v)[0], be16(v)[1]) == v,
        be16(from_be16(hi, lo)) == seq![hi, lo],
{
    assert(from_be16(hi, lo) == hi * 256 + lo);
}

/// The fields of a header are read back from its bytes.
pub proof fn lemma_header_fields(port: u16, chunk_length: u16, checksum: u16)
    ensures
        header_bytes(port, chunk_length, checksum).len() == HEADER_LENGTH,
        header_port(header_bytes(port, chunk_length, checksum)) == port,
        header_length(header_bytes(port, chunk_length, checksum)) == chunk_length,
        header_checksum(header_bytes(port, chunk_length, checksum)) == checksum,
{
    lemma_be16_round_trip(port, 0, 0);
    lemma_be16_round_trip(chunk_length, 0, 0);
    lemma_be16_round_trip(checksum, 0, 0);
}

/// Six bytes are the header of the fields read from them.
pub proof fn lemma_header_of_fields(h: Seq<u8>)
    requires
        h.len() == HEADER_LENGTH,
    ensures
        header_bytes(header_port(h), header_length(h), header_checksum(h)) == h,
{
    lemma_be16_round_trip(0, h[0], h[1]);
    lemma_be16_round_trip(0, h[2], h[3]);
    lemma_be16_round_trip(0, h[4], h[5]);
    assert(header_bytes(header_port(h), header_length(h), header_checksum(h)) =~= h);
}

/// Big-endian bytes of `v`.
pub fn u16_to_be(v: u16) -> (b: (u8, u8))
    ensures
        seq![b.0, b.1] == be16(v),
{
    ((v / 256) as u8, (v % 256) as u8)
}

/// The `u16` with big-endian bytes `hi`, `lo`.
pub fn u16_from_be(hi: u8, lo: u8) -> (v: u16)
    ensures
        v == from_be16(hi, lo),
{
    (hi as u16) * 256 + (lo as u16)
}

/// Writes the header bytes for the given fields.
pub fn encode_header(port: u16, chunk_length: u16, checksum: u16) -> (h: Vec<u8>)
    ensures
        h@ == header_bytes(port, chunk_length, checksum),
{
    let mut h: Vec<u8> = Vec::new();
    let (p0, p1) = u16_to_be(port);
    let (l0, l1) = u16_to_be(chunk_length);
    let (c0, c1) = u16_to_be(checksum);
    h.push(p0);
    h.push(p1);
    h.push(l0);
    h.push(l1);
    h.push(c0);
    h.push(c1);
    assert(h@ =~= header_bytes(port, chunk_length, checksum));
    h
}

/// Appends `data` to `v`.
pub fn append_bytes(v: &mut Vec<u8>, data: &[u8])
    ensures
        final(v)@ == old(v)@ + data@,
{
    let ghost start = v@;
    let mut i: usize = 0;
    while i < data.len()
        invariant
            i <= data@.len(),
            v@ == start + data@.take(i as int),
        decreases data@.len() - i,
    {
        v.push(data[i]);
        i = i + 1;
        assert(v@ =~= start + data@.take(i as int));
    }
    assert(data@.take(i as int) =~= data@);
}

/// The checksum that a chunk with this port and payload carries.
pub fn compute_frame_checksum(port: u16, data: &[u8]) -> (c: u16)
    requires
        data@.len() <= u16::MAX,
    ensures
        c == frame_checksum(port, data@),
{
    let mut input = encode_header(port, data.len() as u16, 0);
    append_bytes(&mut input, data);
    checksum(input.as_slice())
}

/// Encodes a chunk: header with checksum, then the payload.
pub fn encode_frame(port: u16, data: &[u8]) -> (f: Vec<u8>)
    requires
        data@.len() <= u16::MAX,
    ensures
        f@ == frame(port, data@),
        f@.len() == HEADER_LENGTH + data@.len(),
{
    let c = compute_frame_checksum(port, data);
    let mut f = encode_header(port, data.len() as u16, c);
    append_bytes(&mut f, data);
    f
}

} // verus!
