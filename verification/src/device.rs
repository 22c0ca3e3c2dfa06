//! Device side of the multiplexed serial link: the chunk send buffer and the
//! checks made on received chunks.
use vstd::prelude::*;

use crate::checksum::{checksum, crc16_usb};
use crate::frame::{
    append_bytes, be16, encode_header, frame, frame_checksum, from_be16, header_bytes,
    header_checksum, header_length, header_port, lemma_be16_round_trip, lemma_header_fields,
    u16_from_be, u16_to_be,
};
use crate::protocol::{Port, DEFAULT_MTU, HEADER_LENGTH};

verus! {

/// Size of the device's chunk buffer: one header and one payload.
pub const BUFFER_SIZE: usize = DEFAULT_MTU + HEADER_LENGTH;

/// The device's chunk buffer, a `heapless::Vec` of capacity
/// [`BUFFER_SIZE`].
#[verifier::external_body]
pub struct FrameStorage {
    inner: heapless::Vec<u8, BUFFER_SIZE>,
}

/// The bytes held by the chunk buffer, front first.
pub uninterp spec fn storage_contents(storage: FrameStorage) -> Seq<u8>;

/// The contents after `heapless::Vec::resize_default` to `new_len`:
/// truncated, or extended with zero bytes.
pub open spec fn resized(contents: Seq<u8>, new_len: nat) -> Seq<u8> {
    if new_len <= contents.len() {
        contents.take(new_len as int)
    } else {
        contents + Seq::new((new_len - contents.len()) as nat, |i: int| 0u8)
    }
}

/// Calls `heapless::Vec::new`: an empty buffer.
#[verifier::external_body]
fn storage_new() -> (storage: FrameStorage)
    ensures
        storage_contents(storage) == Seq::<u8>::empty(),
{
    FrameStorage { inner: heapless::Vec::new() }
}

/// Calls `heapless::Vec::len`; the length never exceeds the capacity.
#[verifier::external_body]
fn storage_len(storage: &FrameStorage) -> (n: usize)
    ensures
        n == storage_contents(*storage).len(),
        n <= BUFFER_SIZE,
{
    storage.inner.len()
}

/// Calls `heapless::Vec::resize_default`: it succeeds exactly when the new
/// length fits the capacity, and then truncates or pads with zeros; on
/// failure nothing changes.
#[verifier::external_body]
fn storage_resize_default(storage: &mut FrameStorage, new_len: usize) -> (ok: bool)
    ensures
        ok == (new_len <= BUFFER_SIZE),
        ok ==> storage_contents(*final(storage)) == resized(
            storage_contents(*old(storage)),
            new_len as nat,
        ),
        !ok ==> storage_contents(*final(storage)) == storage_contents(*old(storage)),
{
    storage.inner.resize_default(new_len).is_ok()
}

/// Calls `heapless::Vec::extend_from_slice`: it succeeds exactly when the
/// bytes fit the capacity, and then appends them; on failure nothing
/// changes.
#[verifier::external_body]
fn storage_extend_from_slice(storage: &mut FrameStorage, data: &[u8]) -> (ok: bool)
    ensures
        ok == (storage_contents(*old(storage)).len() + data@.len() <= BUFFER_SIZE),
        ok ==> storage_contents(*final(storage)) == storage_contents(*old(storage)) + data@,
        !ok ==> storage_contents(*final(storage)) == storage_contents(*old(storage)),
{
    storage.inner.extend_from_slice(data).is_ok()
}

/// Reads one byte through the buffer's `Deref` to `[u8]`.
#[verifier::external_body]
fn storage_get(storage: &FrameStorage, index: usize) -> (value: u8)
    requires
        index < storage_contents(*storage).len(),
    ensures
        value == storage_contents(*storage)[index as int],
{
    storage.inner[index]
}

/// Writes one byte through the buffer's `DerefMut` to `[u8]`.
#[verifier::external_body]
fn storage_set(storage: &mut FrameStorage, index: usize, value: u8)
    requires
        index < storage_contents(*old(storage)).len(),
    ensures
        storage_contents(*final(storage)) == storage_contents(*old(storage)).update(
            index as int,
            value,
        ),
{
    storage.inner[index] = value
}

/// Calls `heapless::Vec::is_full`: whether the length equals the capacity.
#[verifier::external_body]
fn storage_is_full(storage: &FrameStorage) -> (full: bool)
    ensures
        full == (storage_contents(*storage).len() == BUFFER_SIZE),
{
    storage.inner.is_full()
}

/// Calls `heapless::Vec::capacity`.
#[verifier::external_body]
fn storage_capacity(storage: &FrameStorage) -> (capacity: usize)
    ensures
        capacity == BUFFER_SIZE,
{
    storage.inner.capacity()
}

/// Copies the buffer's bytes out through `heapless::Vec::as_slice`.
#[verifier::external_body]
fn storage_to_vec(storage: &FrameStorage) -> (bytes: Vec<u8>)
    ensures
        bytes@ == storage_contents(*storage),
{
    storage.inner.as_slice().to_vec()
}

/// The device's end of the link: the buffer that chunks are assembled in.
pub struct Mux {
    buffer: FrameStorage,
}

impl Mux {
    /// The bytes in the buffer.
    pub closed spec fn buffered(&self) -> Seq<u8> {
        storage_contents(self.buffer)
    }

    /// A link with an empty buffer.
    pub fn new() -> (m: Self)
        ensures
            m.buffered() == Seq::<u8>::empty(),
    {
        Mux { buffer: storage_new() }
    }

    /// Starts a chunk on `port` in the buffer.
    pub fn send_chunk(&mut self, port: Port) -> (send: SendChunk<'_>)
        ensures
            send.wf(),
            send.port() == port,
            send.payload() == Seq::<u8>::empty(),
    {
        let ok = storage_resize_default(&mut self.buffer, HEADER_LENGTH);
        let (p0, p1) = u16_to_be(port);
        storage_set(&mut self.buffer, 0, p0);
        storage_set(&mut self.buffer, 1, p1);
        proof {
            lemma_be16_round_trip(port, 0, 0);
        }
        SendChunk { buffer: &mut self.buffer }
    }

    /// Sends a serialized message as one chunk on `port`; it must fit one
    /// chunk's payload.
    pub fn send_message(&mut self, port: Port, message: &[u8]) -> (sent: Vec<u8>)
        requires
            message@.len() <= DEFAULT_MTU,
        ensures
            sent@ == frame(port, message@),
    {
        let mut send = self.send_chunk(port);
        send.put_slice(message);
        assert(send.payload() =~= message@);
        send.finish()
    }

    /// A writer that sends what is written to it as chunks on `port`.
    pub fn writer(&mut self, port: Port) -> (w: Writer<'_>)
        ensures
            w.send.wf(),
            w.send.port() == port,
            w.send.payload() == Seq::<u8>::empty(),
    {
        Writer { send: self.send_chunk(port) }
    }
}

/// A chunk being assembled: header space, then the payload so far.
pub struct SendChunk<'a> {
    buffer: &'a mut FrameStorage,
}

impl<'a> SendChunk<'a> {
    /// The buffer's bytes: header space, then the payload.
    pub closed spec fn contents(&self) -> Seq<u8> {
        storage_contents(*self.buffer)
    }

    /// The buffer holds at least a header and at most its capacity.
    pub open spec fn wf(&self) -> bool {
        HEADER_LENGTH <= self.contents().len() <= BUFFER_SIZE
    }

    /// The port the chunk goes to.
    pub open spec fn port(&self) -> Port {
        from_be16(self.contents()[0], self.contents()[1])
    }

    /// The payload written so far.
    pub open spec fn payload(&self) -> Seq<u8> {
        self.contents().skip(HEADER_LENGTH as int)
    }

    /// Appends bytes to the payload; they must fit the buffer.
    pub fn put_slice(&mut self, slice: &[u8])
        requires
            old(self).wf(),
            old(self).payload().len() + slice@.len() <= DEFAULT_MTU,
        ensures
            final(self).wf(),
            final(self).port() == old(self).port(),
            final(self).payload() == old(self).payload() + slice@,
    {
        let ok = storage_extend_from_slice(self.buffer, slice);
        assert(self.payload() =~= old(self).payload() + slice@);
    }

    pub fn is_empty(&self) -> (empty: bool)
        requires
            self.wf(),
        ensures
            empty == (self.payload().len() == 0),
    {
        self.len() == 0
    }

    /// Length of the payload.
    pub fn len(&self) -> (n: usize)
        requires
            self.wf(),
        ensures
            n == self.payload().len(),
    {
        storage_len(self.buffer) - HEADER_LENGTH
    }

    /// Drops the payload; the header space stays.
    pub fn clear(&mut self)
        requires
            old(self).wf(),
        ensures
            final(self).wf(),
            final(self).contents() == old(self).contents().take(HEADER_LENGTH as int),
            final(self).port() == old(self).port(),
            final(self).payload() == Seq::<u8>::empty(),
    {
        let ok = storage_resize_default(self.buffer, HEADER_LENGTH);
        assert(self.payload() =~= Seq::<u8>::empty());
    }

    /// Shortens the payload to `new_length` bytes if it is longer.
    pub fn truncate(&mut self, new_length: usize)
        requires
            old(self).wf(),
            new_length + HEADER_LENGTH <= usize::MAX,
        ensures
            final(self).wf(),
            final(self).port() == old(self).port(),
            final(self).payload() == if new_length < old(self).payload().len() {
                old(self).payload().take(new_length as int)
            } else {
                old(self).payload()
            },
    {
        let new_length = new_length + HEADER_LENGTH;
        if new_length < storage_len(self.buffer) {
            let ok = storage_resize_default(self.buffer, new_length);
            assert(self.payload() =~= old(self).payload().take(
                (new_length - HEADER_LENGTH) as int,
            ));
        }
    }

    /// The buffer's capacity less the payload length.
    pub fn remaining(&self) -> (n: usize)
        requires
            self.wf(),
        ensures
            n == BUFFER_SIZE - self.payload().len(),
    {
        storage_capacity(self.buffer) - self.len()
    }

    /// Whether the buffer is at its capacity.
    pub fn is_full(&self) -> (full: bool)
        requires
            self.wf(),
        ensures
            full == (self.payload().len() == DEFAULT_MTU),
    {
        storage_is_full(self.buffer)
    }

    /// Completes the chunk: writes its length and checksum into the header
    /// and returns the chunk's bytes, to be sent as they are. The payload is
    /// then empty again, on the same port.
    pub fn flush(&mut self) -> (sent: Vec<u8>)
        requires
            old(self).wf(),
        ensures
            sent@ == frame(old(self).port(), old(self).payload()),
            final(self).wf(),
            final(self).port() == old(self).port(),
            final(self).payload() == Seq::<u8>::empty(),
            final(self).contents() == frame(old(self).port(), old(self).payload()).take(
                HEADER_LENGTH as int,
            ),
    {
        let ghost port = self.port();
        let ghost payload = self.payload();
        let chunk_length = self.len();
        let (l0, l1) = u16_to_be(chunk_length as u16);
        storage_set(self.buffer, 2, l0);
        storage_set(self.buffer, 3, l1);
        storage_set(self.buffer, 4, 0);
        storage_set(self.buffer, 5, 0);
        proof {
            lemma_be16_round_trip(port, 0, 0);
            lemma_be16_round_trip(0, self.contents()[0], self.contents()[1]);
            assert(self.contents() =~= header_bytes(port, chunk_length as u16, 0) + payload);
        }
        let unsealed = storage_to_vec(self.buffer);
        let checksum = checksum(unsealed.as_slice());
        self.seal(checksum)
    }

    /// Completes a chunk whose header already holds its length, given its
    /// checksum: writes the checksum into the header and returns the
    /// chunk's bytes; the payload is then empty again, on the same port.
    pub fn seal(&mut self, checksum: u16) -> (sent: Vec<u8>)
        requires
            old(self).wf(),
        ensures
            sent@ == old(self).contents().take(4) + be16(checksum) + old(self).payload(),
            final(self).wf(),
            final(self).port() == old(self).port(),
            final(self).payload() == Seq::<u8>::empty(),
            final(self).contents() == old(self).contents().take(4) + be16(checksum),
    {
        let ghost before = self.contents();
        let (c0, c1) = u16_to_be(checksum);
        storage_set(self.buffer, 4, c0);
        storage_set(self.buffer, 5, c1);
        assert(self.contents() =~= before.take(4) + be16(checksum) + old(self).payload());
        let sent = storage_to_vec(self.buffer);
        self.clear();
        assert(self.contents() =~= before.take(4) + be16(checksum));
        sent
    }

    /// Sends what has been written.
    pub fn finish(self) -> (sent: Vec<u8>)
        requires
            self.wf(),
        ensures
            sent@ == frame(self.port(), self.payload()),
    {
        let mut send = self;
        send.flush()
    }
}

/// A byte writer on a port: bytes are collected in a chunk, which is sent
/// when it is full before more is written, and when flushed.
///
/// Sending here means handing the chunk's bytes back to the caller, so a
/// writer that is dropped sends nothing: what was written since the last
/// flush is sent only by [`Writer::flush`], which a caller must make once
/// it has written all it has.
pub struct Writer<'a> {
    pub send: SendChunk<'a>,
}

impl<'a> Writer<'a> {
    /// Writes `data`; returns the number of bytes taken and the chunk that
    /// had to be sent first, if the buffer was full. The bytes taken are
    /// capped by the buffer's capacity less the payload, so a write must
    /// fit what is really left: the payload room less the header.
    pub fn write(&mut self, data: &[u8]) -> (r: (usize, Option<Vec<u8>>))
        requires
            old(self).send.wf(),
            data@.len() + (if old(self).send.payload().len() == DEFAULT_MTU {
                0
            } else {
                old(self).send.payload().len()
            }) <= DEFAULT_MTU,
        ensures
            final(self).send.wf(),
            final(self).send.port() == old(self).send.port(),
            r.0 == data@.len(),
            old(self).send.payload().len() == DEFAULT_MTU ==> {
                &&& r.1 matches Some(sent) && sent@ == frame(
                    old(self).send.port(),
                    old(self).send.payload(),
                )
                &&& final(self).send.payload() == data@
            },
            old(self).send.payload().len() < DEFAULT_MTU ==> {
                &&& r.1 is None
                &&& final(self).send.payload() == old(self).send.payload() + data@
            },
    {
        let mut sent: Option<Vec<u8>> = None;
        if self.send.is_full() {
            sent = Some(self.send.flush());
        }
        let remaining = self.send.remaining();
        let n = if data.len() < remaining {
            data.len()
        } else {
            remaining
        };
        let taken = vstd::slice::slice_subrange(data, 0, n);
        assert(taken@ =~= data@);
        self.send.put_slice(taken);
        (n, sent)
    }

    /// Sends the chunk collected so far.
    pub fn flush(&mut self) -> (sent: Vec<u8>)
        requires
            old(self).send.wf(),
        ensures
            sent@ == frame(old(self).send.port(), old(self).send.payload()),
            final(self).send.wf(),
            final(self).send.port() == old(self).send.port(),
            final(self).send.payload() == Seq::<u8>::empty(),
    {
        self.send.flush()
    }
}

/// The fields of a received header.
#[derive(Clone, Copy, Debug, PartialEq, Eq, Structural)]
pub struct ChunkHeader {
    pub port: Port,
    pub chunk_length: u16,
    pub checksum: u16,
}

/// What to do with the payload of a received chunk.
#[derive(Clone, Copy, Debug, PartialEq, Eq, Structural)]
pub enum BodyPlan {
    /// Read it into the buffer.
    Read { length: usize },
    /// It does not fit the buffer: skip it on the serial line.
    Skip { length: usize },
}

/// Reads the fields of a six-byte header.
pub fn read_header(header: &[u8]) -> (h: ChunkHeader)
    requires
        header@.len() == HEADER_LENGTH,
    ensures
        h.port == header_port(header@),
        h.chunk_length == header_length(header@),
        h.checksum == header_checksum(header@),
{
    ChunkHeader {
        port: u16_from_be(header[0], header[1]),
        chunk_length: u16_from_be(header[2], header[3]),
        checksum: u16_from_be(header[4], header[5]),
    }
}

/// A payload is read when the buffer can be resized to its length, and
/// skipped otherwise.
pub fn plan_body(h: &ChunkHeader) -> (plan: BodyPlan)
    ensures
        plan == (if h.chunk_length as usize <= BUFFER_SIZE {
            BodyPlan::Read { length: h.chunk_length as usize }
        } else {
            BodyPlan::Skip { length: h.chunk_length as usize }
        }),
{
    let length = h.chunk_length as usize;
    if length <= BUFFER_SIZE {
        BodyPlan::Read { length }
    } else {
        BodyPlan::Skip { length }
    }
}

/// The checksum that a received chunk should carry: the CRC of its header,
/// with the checksum field zero, followed by its payload.
pub fn body_checksum(h: &ChunkHeader, body: &[u8]) -> (local: u16)
    ensures
        local == crc16_usb(header_bytes(h.port, h.chunk_length, 0) + body@),
{
    let mut input = encode_header(h.port, h.chunk_length, 0);
    append_bytes(&mut input, body);
    checksum(input.as_slice())
}

/// Whether a received payload matches the header's checksum; a chunk that
/// does not is ignored.
pub fn check_body(h: &ChunkHeader, body: &[u8]) -> (valid: bool)
    ensures
        valid == (crc16_usb(header_bytes(h.port, h.chunk_length, 0) + body@) == h.checksum),
{
    body_checksum(h, body) == h.checksum
}

/// What one receive step yields. Every outcome but `Chunk` leaves the
/// caller with nothing to handle yet.
pub enum Received {
    /// Nothing was readable.
    Pending,
    /// A chunk too large for the buffer: its payload was skipped.
    Skipped { port: Port, length: u16 },
    /// A chunk whose checksum did not match the one computed here: it is
    /// ignored.
    Ignored { port: Port, local_checksum: u16, remote_checksum: u16 },
    /// A chunk whose checksum matched.
    Chunk { port: Port, data: Seq<u8> },
}

/// What a read payload yields, given the checksum computed for it.
pub open spec fn received_of(h: ChunkHeader, local_checksum: u16, body: Seq<u8>) -> Received {
    if local_checksum == h.checksum {
        Received::Chunk { port: h.port, data: body }
    } else {
        Received::Ignored { port: h.port, local_checksum, remote_checksum: h.checksum }
    }
}

/// The header at the front of `input`.
pub open spec fn front_header(input: Seq<u8>) -> ChunkHeader {
    let h = input.take(HEADER_LENGTH as int);
    ChunkHeader {
        port: header_port(h),
        chunk_length: header_length(h),
        checksum: header_checksum(h),
    }
}

/// Whether `input` holds a whole chunk at its front: a header and as many
/// bytes as it announces. The serial line is polled until they have come,
/// so a receive step is only made once they are there.
pub open spec fn chunk_available(input: Seq<u8>) -> bool {
    &&& input.len() >= HEADER_LENGTH
    &&& input.len() >= HEADER_LENGTH + front_header(input).chunk_length
}

/// One receive step on the serial input `input`, the bytes that the line
/// delivers from now on, when `ready` says whether a byte can be read at
/// once: what it yields and how many input bytes it takes. A step reads a
/// header, then either skips a payload too large for the buffer or reads
/// the payload and checks it; a chunk with a wrong checksum is ignored.
pub open spec fn receive_spec(ready: bool, input: Seq<u8>) -> (Received, int) {
    if !ready {
        (Received::Pending, 0)
    } else {
        let h = front_header(input);
        let consumed = HEADER_LENGTH + h.chunk_length;
        if h.chunk_length > BUFFER_SIZE {
            (Received::Skipped { port: h.port, length: h.chunk_length }, consumed)
        } else {
            let body = input.subrange(HEADER_LENGTH as int, consumed);
            (
                received_of(h, crc16_usb(header_bytes(h.port, h.chunk_length, 0) + body), body),
                consumed,
            )
        }
    }
}

/// What [`Mux::poll_receive`] returns: [`Received`] with the chunk's data
/// in a `Vec`.
#[derive(Debug)]
pub enum ReceiveOutcome {
    Pending,
    Skipped { port: Port, length: u16 },
    Ignored { port: Port, local_checksum: u16, remote_checksum: u16 },
    Chunk { port: Port, data: Vec<u8> },
}

impl View for ReceiveOutcome {
    type V = Received;

    open spec fn view(&self) -> Received {
        match self {
            ReceiveOutcome::Pending => Received::Pending,
            ReceiveOutcome::Skipped { port, length } => Received::Skipped {
                port: *port,
                length: *length,
            },
            ReceiveOutcome::Ignored { port, local_checksum, remote_checksum } => {
                Received::Ignored {
                    port: *port,
                    local_checksum: *local_checksum,
                    remote_checksum: *remote_checksum,
                }
            },
            ReceiveOutcome::Chunk { port, data } => Received::Chunk { port: *port, data: data@ },
        }
    }
}

/// What a read payload yields, given the checksum computed for it: the
/// chunk when it equals the header's checksum, else an ignored chunk with
/// both checksums.
pub fn receive_outcome(h: &ChunkHeader, local_checksum: u16, body: &[u8]) -> (r: ReceiveOutcome)
    ensures
        r@ == received_of(*h, local_checksum, body@),
{
    if local_checksum == h.checksum {
        let mut data: Vec<u8> = Vec::new();
        append_bytes(&mut data, body);
        ReceiveOutcome::Chunk { port: h.port, data }
    } else {
        ReceiveOutcome::Ignored { port: h.port, local_checksum, remote_checksum: h.checksum }
    }
}

impl Mux {
    /// One receive step: see [`receive_spec`]. Returns the outcome and the
    /// number of input bytes taken.
    pub fn poll_receive(&self, ready: bool, input: &[u8]) -> (r: (ReceiveOutcome, usize))
        requires
            ready ==> chunk_available(input@),
        ensures
            r.0@ == receive_spec(ready, input@).0,
            r.1 == receive_spec(ready, input@).1,
    {
        if !ready {
            return (ReceiveOutcome::Pending, 0);
        }
        let header = vstd::slice::slice_subrange(input, 0, HEADER_LENGTH);
        assert(header@ =~= input@.take(HEADER_LENGTH as int));
        let h = read_header(header);
        match plan_body(&h) {
            BodyPlan::Skip { length } => (
                ReceiveOutcome::Skipped { port: h.port, length: h.chunk_length },
                HEADER_LENGTH + length,
            ),
            BodyPlan::Read { length } => {
                let body = vstd::slice::slice_subrange(input, HEADER_LENGTH, HEADER_LENGTH + length);
                let local_checksum = body_checksum(&h, body);
                (receive_outcome(&h, local_checksum, body), HEADER_LENGTH + length)
            },
        }
    }
}

/// What the firmware does with the outcome of a receive step.
#[derive(Debug)]
pub enum Dispatch {
    /// Nothing to handle yet.
    Pending,
    /// A chunk on the protocol port: its data is a client message to
    /// decode.
    Decode { data: Vec<u8> },
    /// A chunk on another port: it is ignored.
    UnexpectedPort { port: Port },
}

/// Routes the outcome of a receive step: a chunk on `protocol_port` is
/// handed on to be decoded, a chunk on any other port is ignored, and every
/// other outcome leaves nothing to handle.
pub fn dispatch(outcome: ReceiveOutcome, protocol_port: Port) -> (d: Dispatch)
    ensures
        match outcome@ {
            Received::Chunk { port, data } => if port == protocol_port {
                d matches Dispatch::Decode { data: dd } && dd@ == data
            } else {
                d matches Dispatch::UnexpectedPort { port: p } && p == port
            },
            _ => d is Pending,
        },
{
    match outcome {
        ReceiveOutcome::Chunk { port, data } => {
            if port == protocol_port {
                Dispatch::Decode { data }
            } else {
                Dispatch::UnexpectedPort { port }
            }
        },
        _ => Dispatch::Pending,
    }
}

/// A chunk that the device sends is received whole by a receive step, which
/// takes exactly its header and payload and leaves what follows.
pub proof fn lemma_sent_chunk_received(port: Port, data: Seq<u8>, rest: Seq<u8>)
    requires
        data.len() <= DEFAULT_MTU,
    ensures
        chunk_available(frame(port, data) + rest),
        receive_spec(true, frame(port, data) + rest) == (
            Received::Chunk { port, data },
            HEADER_LENGTH + data.len(),
        ),
{
    let f = frame(port, data);
    let input = f + rest;
    lemma_sent_chunk_accepted(port, data);
    assert(input.take(HEADER_LENGTH as int) =~= f.take(HEADER_LENGTH as int));
    assert(input.subrange(HEADER_LENGTH as int, HEADER_LENGTH + data.len()) =~= data);
}

/// A chunk too large for the buffer yields its port and length and is
/// taken whole, header and payload, so that the next step starts at the
/// chunk after it.
pub proof fn lemma_oversized_chunk_skipped(port: Port, checksum: u16, body: Seq<u8>, rest: Seq<u8>)
    requires
        BUFFER_SIZE < body.len() <= u16::MAX,
    ensures
        ({
            let input = header_bytes(port, body.len() as u16, checksum) + body + rest;
            &&& chunk_available(input)
            &&& receive_spec(true, input) == (
                Received::Skipped { port, length: body.len() as u16 },
                HEADER_LENGTH + body.len(),
            )
        }),
{
    let h = header_bytes(port, body.len() as u16, checksum);
    lemma_header_fields(port, body.len() as u16, checksum);
    let input = h + body + rest;
    assert(input.take(HEADER_LENGTH as int) =~= h);
}

/// A chunk whose checksum does not match is ignored, with the checksum
/// computed here and the one it carried, and is taken whole, header and
/// payload, so that the next step starts at the chunk after it.
pub proof fn lemma_bad_checksum_ignored(port: Port, checksum: u16, body: Seq<u8>, rest: Seq<u8>)
    requires
        body.len() <= BUFFER_SIZE,
        crc16_usb(header_bytes(port, body.len() as u16, 0) + body) != checksum,
    ensures
        ({
            let input = header_bytes(port, body.len() as u16, checksum) + body + rest;
            &&& chunk_available(input)
            &&& receive_spec(true, input) == (
                Received::Ignored {
                    port,
                    local_checksum: crc16_usb(header_bytes(port, body.len() as u16, 0) + body),
                    remote_checksum: checksum,
                },
                HEADER_LENGTH + body.len(),
            )
        }),
{
    let h = header_bytes(port, body.len() as u16, checksum);
    lemma_header_fields(port, body.len() as u16, checksum);
    let input = h + body + rest;
    assert(input.take(HEADER_LENGTH as int) =~= h);
    assert(input.subrange(HEADER_LENGTH as int, HEADER_LENGTH + body.len()) =~= body);
}

/// With nothing readable, a receive step yields nothing and takes nothing.
pub proof fn lemma_nothing_readable(input: Seq<u8>)
    ensures
        receive_spec(false, input) == (Received::Pending, 0int),
{
}

/// A chunk that the device sends is accepted by the device's own receive
/// path: its header reads back its port and length, the payload fits the
/// buffer, and the checksum matches.
pub proof fn lemma_sent_chunk_accepted(port: Port, data: Seq<u8>)
    requires
        data.len() <= DEFAULT_MTU,
    ensures
        ({
            let f = frame(port, data);
            let h = f.take(HEADER_LENGTH as int);
            &&& header_port(h) == port
            &&& header_length(h) == data.len()
            &&& header_length(h) as usize <= BUFFER_SIZE
            &&& f.skip(HEADER_LENGTH as int) == data
            &&& crc16_usb(header_bytes(header_port(h), header_length(h), 0) + data)
                == header_checksum(h)
        }),
{
    let f = frame(port, data);
    lemma_header_fields(port, data.len() as u16, frame_checksum(port, data));
    assert(f.take(HEADER_LENGTH as int) =~= header_bytes(
        port,
        data.len() as u16,
        frame_checksum(port, data),
    ));
    assert(f.skip(HEADER_LENGTH as int) =~= data);
}

} // verus!
