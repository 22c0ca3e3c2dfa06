//! Host-side chunk codec over a `bytes::BytesMut` stream buffer.
use vstd::prelude::*;

use bytes::BytesMut;

use crate::buffers::{buffer_contents, buffer_extend, buffer_len, buffer_set, buffer_split_to};

use crate::checksum::{checksum, crc16_usb};
use crate::frame::{
    append_bytes, be16, compute_frame_checksum, encode_header, frame, frame_checksum, header_bytes,
    header_checksum, header_length, header_port, lemma_header_fields, u16_from_be, u16_to_be,
};
use crate::mux::MuxError;
use crate::protocol::{Port, HEADER_LENGTH};

verus! {

/// A chunk of payload on a port.
#[derive(Debug)]
pub struct Chunk {
    pub port: Port,
    pub data: Vec<u8>,
}

/// Where the decoder stands between calls.
#[derive(Clone, Copy, Debug, PartialEq, Eq, Structural)]
pub enum DecoderState {
    /// Waiting for a complete header.
    ReadHeader,
    /// Header read; waiting for `chunk_length` bytes of payload.
    ReadBody { port: Port, chunk_length: usize, checksum: u16 },
}

/// What one call of [`ChunkedDecoder::decode`] yields.
pub enum DecodeOutcome {
    /// Not enough input yet.
    Pending,
    /// A chunk whose checksum matched.
    Decoded { port: Port, data: Seq<u8> },
    /// A chunk whose checksum did not match; it has been consumed.
    ChecksumMismatch { port: Port, local: u16, remote: u16 },
}

/// The state after the header stage, and the input left after it.
pub open spec fn after_header(state: DecoderState, input: Seq<u8>) -> (DecoderState, Seq<u8>) {
    match state {
        DecoderState::ReadHeader => {
            if input.len() < HEADER_LENGTH {
                (state, input)
            } else {
                let h = input.take(HEADER_LENGTH as int);
                (
                    DecoderState::ReadBody {
                        port: header_port(h),
                        chunk_length: header_length(h) as usize,
                        checksum: header_checksum(h),
                    },
                    input.skip(HEADER_LENGTH as int),
                )
            }
        },
        _ => (state, input),
    }
}

/// One decoding step: the outcome, the next state and the input left.
pub open spec fn decode_step(state: DecoderState, input: Seq<u8>) -> (
    DecodeOutcome,
    DecoderState,
    Seq<u8>,
) {
    let (s, rest) = after_header(state, input);
    match s {
        DecoderState::ReadHeader => (DecodeOutcome::Pending, s, rest),
        DecoderState::ReadBody { port, chunk_length, checksum } => {
            if rest.len() < chunk_length {
                (DecodeOutcome::Pending, s, rest)
            } else {
                let data = rest.take(chunk_length as int);
                let local = crc16_usb(header_bytes(port, chunk_length as u16, 0) + data);
                let outcome = if local == checksum {
                    DecodeOutcome::Decoded { port, data }
                } else {
                    DecodeOutcome::ChecksumMismatch { port, local, remote: checksum }
                };
                (outcome, DecoderState::ReadHeader, rest.skip(chunk_length as int))
            }
        },
    }
}

/// Whether a call's result is the one that `outcome` describes.
pub open spec fn result_matches(r: Result<Option<Chunk>, MuxError>, outcome: DecodeOutcome) -> bool {
    match outcome {
        DecodeOutcome::Pending => r matches Ok(None),
        DecodeOutcome::Decoded { port, data } => r matches Ok(Some(c)) && c.port == port
            && c.data@ == data,
        DecodeOutcome::ChecksumMismatch { port, local, remote } => r matches Err(
            MuxError::InvalidChunkChecksum { port: p, local_checksum: l, remote_checksum: q },
        ) && p == port && l == local && q == remote,
    }
}

/// Decodes chunks from a byte stream that may arrive in pieces.
#[derive(Debug)]
pub struct ChunkedDecoder {
    state: DecoderState,
}

impl View for ChunkedDecoder {
    type V = DecoderState;

    closed spec fn view(&self) -> DecoderState {
        self.state
    }
}

impl ChunkedDecoder {
    /// A decoder waiting for a header.
    pub fn new() -> (d: Self)
        ensures
            d@ == DecoderState::ReadHeader,
    {
        ChunkedDecoder { state: DecoderState::ReadHeader }
    }

    /// Takes what it can from the front of `src`: a header, once six bytes
    /// are there, then the payload, once all of it is there. A complete
    /// chunk is returned when its checksum matches and reported as
    /// `InvalidChunkChecksum` when not; either way the decoder then waits for
    /// the next header.
    pub fn decode(&mut self, src: &mut BytesMut) -> (r: Result<Option<Chunk>, MuxError>)
        ensures
            ({
                let (outcome, state, rest) = decode_step(old(self)@, buffer_contents(*old(src)));
                &&& result_matches(r, outcome)
                &&& final(self)@ == state
                &&& buffer_contents(*final(src)) == rest
            }),
    {
        if let DecoderState::ReadHeader = self.state {
            if buffer_len(src) < HEADER_LENGTH {
                return Ok(None);
            }
            let h = buffer_split_to(src, HEADER_LENGTH);
            let port = u16_from_be(h[0], h[1]);
            let chunk_length = u16_from_be(h[2], h[3]);
            let checksum = u16_from_be(h[4], h[5]);
            self.state = DecoderState::ReadBody { port, chunk_length: chunk_length as usize, checksum };
        }
        match self.state {
            DecoderState::ReadHeader => Ok(None),
            DecoderState::ReadBody { port, chunk_length, checksum: remote_checksum } => {
                if buffer_len(src) < chunk_length {
                    return Ok(None);
                }
                let data = buffer_split_to(src, chunk_length);
                let mut input = encode_header(port, chunk_length as u16, 0);
                append_bytes(&mut input, data.as_slice());
                let local_checksum = checksum(input.as_slice());
                // whether or not the checksum matches, the next chunk starts here
                self.state = DecoderState::ReadHeader;
                body_result(port, data, local_checksum, remote_checksum)
            },
        }
    }
}

/// The result for a complete chunk, given the checksum computed over its
/// header and payload and the checksum its header carries: the chunk when
/// they match, `InvalidChunkChecksum` with both when not.
pub fn body_result(port: Port, data: Vec<u8>, local_checksum: u16, remote_checksum: u16) -> (r:
    Result<Option<Chunk>, MuxError>)
    ensures
        local_checksum == remote_checksum ==> (r matches Ok(Some(c)) && c.port == port && c.data
            == data),
        local_checksum != remote_checksum ==> (r matches Err(
            MuxError::InvalidChunkChecksum { port: p, local_checksum: l, remote_checksum: q },
        ) && p == port && l == local_checksum && q == remote_checksum),
{
    if local_checksum != remote_checksum {
        return Err(MuxError::InvalidChunkChecksum { port, local_checksum, remote_checksum });
    }
    Ok(Some(Chunk { port, data }))
}

impl Default for ChunkedDecoder {
    fn default() -> (d: Self)
        ensures
            d@ == DecoderState::ReadHeader,
    {
        ChunkedDecoder::new()
    }
}

/// The payload followed by zero bytes up to the header length.
pub open spec fn padded_to_header(data: Seq<u8>) -> Seq<u8> {
    data + Seq::new((HEADER_LENGTH - data.len()) as nat, |i: int| 0u8)
}

/// What [`ChunkedEncoder::encode`] leaves in the buffer: the zero-padded
/// payload is appended, then bytes 4 and 5 of the whole buffer are set to
/// the chunk's checksum.
pub open spec fn encoder_output(dst: Seq<u8>, port: Port, data: Seq<u8>) -> Seq<u8> {
    let appended = dst + padded_to_header(data);
    appended.take(4) + be16(frame_checksum(port, data)) + appended.skip(6)
}

/// Writes chunks into a byte buffer.
///
/// The header fields are put through a checksumming adapter over a
/// header-sized scratch area that does not advance its cursor, so each
/// write lands at the start of the scratch area: what reaches the buffer is
/// the payload, zero-padded to six bytes, and the checksum, which is stored
/// at offset 4 of the whole buffer. A payload longer than the scratch area
/// does not fit.
#[derive(Debug)]
pub struct ChunkedEncoder;

impl ChunkedEncoder {
    pub fn new() -> (e: Self) {
        ChunkedEncoder
    }

    pub fn encode(&mut self, chunk: Chunk, dst: &mut BytesMut) -> (r: Result<(), MuxError>)
        requires
            chunk.data@.len() <= HEADER_LENGTH,
        ensures
            r is Ok,
            buffer_contents(*final(dst)) == encoder_output(
                buffer_contents(*old(dst)),
                chunk.port,
                chunk.data@,
            ),
    {
        let ghost start = buffer_contents(*dst);
        let checksum = compute_frame_checksum(chunk.port, chunk.data.as_slice());
        let mut scratch: Vec<u8> = Vec::new();
        append_bytes(&mut scratch, chunk.data.as_slice());
        while scratch.len() < HEADER_LENGTH
            invariant
                chunk.data@.len() <= scratch@.len() <= HEADER_LENGTH,
                scratch@.take(chunk.data@.len() as int) == chunk.data@,
                forall|i: int| chunk.data@.len() <= i < scratch@.len() ==> scratch@[i] == 0u8,
            decreases HEADER_LENGTH - scratch@.len(),
        {
            scratch.push(0);
        }
        assert(scratch@ =~= padded_to_header(chunk.data@));
        buffer_extend(dst, scratch.as_slice());
        let (c0, c1) = u16_to_be(checksum);
        buffer_set(dst, 4, c0);
        buffer_set(dst, 5, c1);
        assert(buffer_contents(*dst) =~= encoder_output(start, chunk.port, chunk.data@));
        Ok(())
    }
}

impl Default for ChunkedEncoder {
    fn default() -> (e: Self) {
        ChunkedEncoder
    }
}

/// Decoder and encoder together.
#[derive(Debug)]
pub struct ChunkedCodec {
    pub decoder: ChunkedDecoder,
    pub encoder: ChunkedEncoder,
}

impl ChunkedCodec {
    pub fn new() -> (c: Self)
        ensures
            c.decoder@ == DecoderState::ReadHeader,
    {
        ChunkedCodec { decoder: ChunkedDecoder::new(), encoder: ChunkedEncoder::new() }
    }

    pub fn decode(&mut self, src: &mut BytesMut) -> (r: Result<Option<Chunk>, MuxError>)
        ensures
            ({
                let (outcome, state, rest) = decode_step(
                    old(self).decoder@,
                    buffer_contents(*old(src)),
                );
                &&& result_matches(r, outcome)
                &&& final(self).decoder@ == state
                &&& buffer_contents(*final(src)) == rest
            }),
    {
        self.decoder.decode(src)
    }

    pub fn encode(&mut self, item: Chunk, dst: &mut BytesMut) -> (r: Result<(), MuxError>)
        requires
            item.data@.len() <= HEADER_LENGTH,
        ensures
            r is Ok,
            final(self).decoder@ == old(self).decoder@,
            buffer_contents(*final(dst)) == encoder_output(
                buffer_contents(*old(dst)),
                item.port,
                item.data@,
            ),
    {
        self.encoder.encode(item, dst)
    }
}

impl Default for ChunkedCodec {
    fn default() -> (c: Self)
        ensures
            c.decoder@ == DecoderState::ReadHeader,
    {
        ChunkedCodec::new()
    }
}

/// A complete frame at the front of the input decodes, in one call from the
/// header state, to the chunk it encodes, and leaves what follows it.
pub proof fn lemma_frame_decodes(port: Port, data: Seq<u8>, rest: Seq<u8>)
    requires
        data.len() <= u16::MAX,
    ensures
        ({
            let (outcome, state, left) = decode_step(DecoderState::ReadHeader, frame(port, data) + rest);
            &&& outcome matches DecodeOutcome::Decoded { port: p, data: d } && p == port && d == data
            &&& state == DecoderState::ReadHeader
            &&& left == rest
        }),
{
    let c = frame_checksum(port, data);
    let h = header_bytes(port, data.len() as u16, c);
    lemma_header_fields(port, data.len() as u16, c);
    let input = frame(port, data) + rest;
    assert(input.take(HEADER_LENGTH as int) =~= h);
    assert(input.skip(HEADER_LENGTH as int) =~= data + rest);
    assert((data + rest).take(data.len() as int) =~= data);
    assert((data + rest).skip(data.len() as int) =~= rest);
}

/// A frame that arrives in two pieces, split anywhere, decodes to the same
/// chunk: the first piece yields nothing, and once the second piece has
/// been appended to what the first call left, the next call yields the
/// chunk and leaves what follows the frame.
pub proof fn lemma_split_frame_decodes(port: Port, data: Seq<u8>, k: int, rest: Seq<u8>)
    requires
        data.len() <= u16::MAX,
        0 <= k < frame(port, data).len(),
    ensures
        ({
            let f = frame(port, data);
            let (first, state1, left1) = decode_step(DecoderState::ReadHeader, f.take(k));
            let (second, state2, left2) = decode_step(state1, left1 + f.skip(k) + rest);
            &&& first is Pending
            &&& second matches DecodeOutcome::Decoded { port: p, data: d } && p == port && d == data
            &&& state2 == DecoderState::ReadHeader
            &&& left2 == rest
        }),
{
    let f = frame(port, data);
    let c = frame_checksum(port, data);
    let h = header_bytes(port, data.len() as u16, c);
    lemma_header_fields(port, data.len() as u16, c);
    assert(f.take(HEADER_LENGTH as int) =~= h);
    if k < HEADER_LENGTH {
        let (first, state1, left1) = decode_step(DecoderState::ReadHeader, f.take(k));
        assert(state1 == DecoderState::ReadHeader);
        assert(left1 + f.skip(k) + rest =~= f + rest);
        lemma_frame_decodes(port, data, rest);
    } else {
        let piece = f.take(k);
        assert(piece.take(HEADER_LENGTH as int) =~= h);
        assert(piece.skip(HEADER_LENGTH as int) =~= data.take(k - HEADER_LENGTH));
        let (first, state1, left1) = decode_step(DecoderState::ReadHeader, piece);
        assert(left1 + f.skip(k) + rest =~= data + rest);
        assert((data + rest).take(data.len() as int) =~= data);
        assert((data + rest).skip(data.len() as int) =~= rest);
    }
}

/// A frame whose checksum field is not the checksum of its header and
/// payload is consumed and reported as a mismatch, with both checksums.
pub proof fn lemma_bad_checksum_rejected(port: Port, data: Seq<u8>, remote: u16, rest: Seq<u8>)
    requires
        data.len() <= u16::MAX,
        remote != frame_checksum(port, data),
    ensures
        ({
            let input = header_bytes(port, data.len() as u16, remote) + data + rest;
            let (outcome, state, left) = decode_step(DecoderState::ReadHeader, input);
            &&& outcome matches DecodeOutcome::ChecksumMismatch { port: p, local: l, remote: r }
                && p == port && l == frame_checksum(port, data) && r == remote
            &&& state == DecoderState::ReadHeader
            &&& left == rest
        }),
{
    let h = header_bytes(port, data.len() as u16, remote);
    lemma_header_fields(port, data.len() as u16, remote);
    let input = h + data + rest;
    assert(input.take(HEADER_LENGTH as int) =~= h);
    assert(input.skip(HEADER_LENGTH as int) =~= data + rest);
    assert((data + rest).take(data.len() as int) =~= data);
    assert((data + rest).skip(data.len() as int) =~= rest);
}

/// The encodings of a sequence of chunks, one after the other.
pub open spec fn frames(chunks: Seq<(Port, Seq<u8>)>) -> Seq<u8>
    decreases chunks.len(),
{
    if chunks.len() == 0 {
        Seq::empty()
    } else {
        frame(chunks[0].0, chunks[0].1) + frames(chunks.drop_first())
    }
}

/// `n` decoding steps from `state`: their outcomes, in order, the state
/// after them and the input they leave.
pub open spec fn decode_steps(state: DecoderState, input: Seq<u8>, n: nat) -> (
    Seq<DecodeOutcome>,
    DecoderState,
    Seq<u8>,
)
    decreases n,
{
    if n == 0 {
        (Seq::empty(), state, input)
    } else {
        let (outcome, next, left) = decode_step(state, input);
        let (outcomes, last, rest) = decode_steps(next, left, (n - 1) as nat);
        (seq![outcome] + outcomes, last, rest)
    }
}

/// Chunks sent one after the other are decoded one per step, in the order
/// they were sent, each with its port and payload, and the decoder is left
/// waiting for the next header with exactly the input that follows them.
pub proof fn lemma_frames_decode_in_order(chunks: Seq<(Port, Seq<u8>)>, rest: Seq<u8>)
    requires
        forall|i: int| 0 <= i < chunks.len() ==> #[trigger] chunks[i].1.len() <= u16::MAX,
    ensures
        ({
            let (outcomes, state, left) = decode_steps(
                DecoderState::ReadHeader,
                frames(chunks) + rest,
                chunks.len(),
            );
            &&& outcomes.len() == chunks.len()
            &&& forall|i: int|
                0 <= i < chunks.len() ==> (#[trigger] outcomes[i] matches DecodeOutcome::Decoded {
                    port,
                    data,
                } && port == chunks[i].0 && data == chunks[i].1)
            &&& state == DecoderState::ReadHeader
            &&& left == rest
        }),
    decreases chunks.len(),
{
    if chunks.len() == 0 {
        assert(frames(chunks) + rest =~= rest);
    } else {
        let tail = chunks.drop_first();
        assert forall|i: int| 0 <= i < tail.len() implies #[trigger] tail[i].1.len() <= u16::MAX by {
            assert(tail[i] == chunks[i + 1]);
        }
        lemma_frames_decode_in_order(tail, rest);
        let after = frames(tail) + rest;
        assert(frames(chunks) + rest =~= frame(chunks[0].0, chunks[0].1) + after);
        lemma_frame_decodes(chunks[0].0, chunks[0].1, after);
        let (outcome, next, left) = decode_step(
            DecoderState::ReadHeader,
            frame(chunks[0].0, chunks[0].1) + after,
        );
        let (outcomes, last, remaining) = decode_steps(next, left, tail.len());
        assert(decode_steps(DecoderState::ReadHeader, frames(chunks) + rest, chunks.len()) == (
            seq![outcome] + outcomes,
            last,
            remaining,
        ));
        assert forall|i: int| 0 <= i < chunks.len() implies (#[trigger] (seq![outcome]
            + outcomes)[i] matches DecodeOutcome::Decoded { port, data } && port == chunks[i].0
            && data == chunks[i].1) by {
            if i > 0 {
                assert((seq![outcome] + outcomes)[i] == outcomes[i - 1]);
                assert(tail[i - 1] == chunks[i]);
            }
        }
    }
}

/// Calls of the decoder until one yields nothing: their outcomes, in order,
/// the state after the last call and the input it leaves.
pub open spec fn drain(state: DecoderState, input: Seq<u8>) -> (
    Seq<DecodeOutcome>,
    DecoderState,
    Seq<u8>,
)
    decreases 2 * input.len() + if state is ReadBody {
        1int
    } else {
        0int
    },
{
    let (outcome, next, left) = decode_step(state, input);
    if outcome is Pending {
        (Seq::empty(), next, left)
    } else {
        let (outcomes, last, rest) = drain(next, left);
        (seq![outcome] + outcomes, last, rest)
    }
}

/// The byte pieces one after the other.
pub open spec fn concat(pieces: Seq<Seq<u8>>) -> Seq<u8>
    decreases pieces.len(),
{
    if pieces.len() == 0 {
        Seq::empty()
    } else {
        pieces[0] + concat(pieces.drop_first())
    }
}

/// The pieces appended to the input one at a time, with the decoder called
/// until it yields nothing after each: all outcomes, in order, the state
/// at the end and the input left.
pub open spec fn feed(state: DecoderState, input: Seq<u8>, pieces: Seq<Seq<u8>>) -> (
    Seq<DecodeOutcome>,
    DecoderState,
    Seq<u8>,
)
    decreases pieces.len(),
{
    if pieces.len() == 0 {
        (Seq::empty(), state, input)
    } else {
        let (outcomes, next, left) = drain(state, input + pieces[0]);
        let (later, last, rest) = feed(next, left, pieces.drop_first());
        (outcomes + later, last, rest)
    }
}

/// More input does not change a step that completed; a step that yielded
/// nothing is continued, once more input is there, by the step from where
/// it stopped.
proof fn lemma_step_extends(state: DecoderState, input: Seq<u8>, more: Seq<u8>)
    ensures
        ({
            let (outcome, next, left) = decode_step(state, input);
            let (outcome2, next2, left2) = decode_step(state, input + more);
            &&& !(outcome is Pending) ==> outcome2 == outcome && next2 == next && left2 == left
                + more
            &&& outcome is Pending ==> decode_step(state, input + more) == decode_step(
                next,
                left + more,
            )
        }),
{
    let all = input + more;
    if state is ReadHeader && input.len() >= HEADER_LENGTH {
        assert(all.take(HEADER_LENGTH as int) =~= input.take(HEADER_LENGTH as int));
        assert(all.skip(HEADER_LENGTH as int) =~= input.skip(HEADER_LENGTH as int) + more);
    }
    let (s, rest) = after_header(state, input);
    let (s2, rest2) = after_header(state, all);
    if let DecoderState::ReadBody { port, chunk_length, checksum } = s {
        if rest.len() >= chunk_length {
            assert((rest + more).take(chunk_length as int) =~= rest.take(chunk_length as int));
            assert((rest + more).skip(chunk_length as int) =~= rest.skip(chunk_length as int)
                + more);
        }
    }
}

/// Draining a longer input gives what draining the shorter one gives, then
/// what draining from there gives once the rest has been appended.
proof fn lemma_drain_extends(state: DecoderState, input: Seq<u8>, more: Seq<u8>)
    ensures
        ({
            let (outcomes, next, left) = drain(state, input);
            let (later, last, rest) = drain(next, left + more);
            drain(state, input + more) == (outcomes + later, last, rest)
        }),
    decreases 2 * input.len() + if state is ReadBody {
        1int
    } else {
        0int
    },
{
    lemma_step_extends(state, input, more);
    let (outcome, next, left) = decode_step(state, input);
    if outcome is Pending {
        let (later, last, rest) = drain(next, left + more);
        assert(Seq::<DecodeOutcome>::empty() + later =~= later);
    } else {
        lemma_drain_extends(next, left, more);
        let (outcomes, n2, l2) = drain(next, left);
        let (later, last, rest) = drain(n2, l2 + more);
        assert(seq![outcome] + outcomes + later =~= seq![outcome] + (outcomes + later));
    }
}

/// Whether the decoder, in `state` with `input`, yields nothing and changes
/// nothing when called.
pub open spec fn settled(state: DecoderState, input: Seq<u8>) -> bool {
    decode_step(state, input) == (DecodeOutcome::Pending, state, input)
}

/// Where draining stops, the decoder is settled.
proof fn lemma_drain_settles(state: DecoderState, input: Seq<u8>)
    ensures
        settled(drain(state, input).1, drain(state, input).2),
    decreases 2 * input.len() + if state is ReadBody {
        1int
    } else {
        0int
    },
{
    let (outcome, next, left) = decode_step(state, input);
    if !(outcome is Pending) {
        lemma_drain_settles(next, left);
    }
}

/// Feeding pieces to a settled decoder gives the same outcomes, in the
/// same order, the same final state and the same input left as feeding
/// them all at once.
proof fn lemma_feed_is_drain(state: DecoderState, input: Seq<u8>, pieces: Seq<Seq<u8>>)
    requires
        settled(state, input),
    ensures
        feed(state, input, pieces) == drain(state, input + concat(pieces)),
    decreases pieces.len(),
{
    if pieces.len() == 0 {
        assert(input + concat(pieces) =~= input);
    } else {
        let first = input + pieces[0];
        let (outcomes, next, left) = drain(state, first);
        lemma_drain_settles(state, first);
        lemma_feed_is_drain(next, left, pieces.drop_first());
        lemma_drain_extends(state, first, concat(pieces.drop_first()));
        assert(first + concat(pieces.drop_first()) =~= input + concat(pieces));
    }
}

/// However the byte stream is split into pieces, a fresh decoder that gets
/// the pieces one at a time, and is called until it yields nothing after
/// each, gives the same outcomes, in the same order, ends in the same state
/// and leaves the same bytes as a fresh decoder that gets the whole stream
/// at once.
pub proof fn lemma_decoding_ignores_splits(pieces: Seq<Seq<u8>>)
    ensures
        feed(DecoderState::ReadHeader, Seq::empty(), pieces) == drain(
            DecoderState::ReadHeader,
            concat(pieces),
        ),
{
    lemma_feed_is_drain(DecoderState::ReadHeader, Seq::empty(), pieces);
    assert(Seq::<u8>::empty() + concat(pieces) =~= concat(pieces));
}

/// Decoding what the encoder wrote into an empty buffer gives the chunk
/// back when the chunk is the empty one on port 0.
pub proof fn lemma_encoder_round_trip(port: Port, data: Seq<u8>)
    requires
        port == 0,
        data.len() == 0,
    ensures
        ({
            let written = encoder_output(Seq::empty(), port, data);
            let (outcome, state, left) = decode_step(DecoderState::ReadHeader, written);
            &&& outcome matches DecodeOutcome::Decoded { port: p, data: d } && p == port && d == data
            &&& state == DecoderState::ReadHeader
            &&& left.len() == 0
        }),
{
    let written = encoder_output(Seq::empty(), port, data);
    lemma_header_fields(0, 0, frame_checksum(port, data));
    assert(written =~= frame(port, data) + Seq::empty());
    lemma_frame_decodes(port, data, Seq::empty());
}

} // verus!
