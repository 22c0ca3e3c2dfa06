//! Buffering behind the byte-stream adapters of a channel: writes are
//! collected up to the payload size of one chunk, and reads are served from
//! the chunk last received.
use vstd::prelude::*;

use bytes::{Bytes, BytesMut};

use crate::buffers::{
    buffer_contents, buffer_extend, buffer_len, buffer_new, buffer_take_frozen, bytes_contents,
    bytes_len, bytes_new, bytes_split_to,
};

verus! {

/// Bytes written to a channel that have not been sent yet.
#[derive(Debug)]
pub struct WriteBuffer {
    write_buffer: BytesMut,
    mtu: usize,
}

impl WriteBuffer {
    /// The waiting bytes never exceed one chunk's payload.
    pub open spec fn wf(&self) -> bool {
        self.pending().len() <= self.spec_mtu()
    }

    /// The bytes waiting to be sent.
    pub closed spec fn pending(&self) -> Seq<u8> {
        buffer_contents(self.write_buffer)
    }

    /// The payload size of one chunk.
    pub closed spec fn spec_mtu(&self) -> usize {
        self.mtu
    }

    pub fn new(mtu: usize) -> (b: Self)
        ensures
            b.wf(),
            b.pending() == Seq::<u8>::empty(),
            b.spec_mtu() == mtu,
    {
        WriteBuffer { write_buffer: buffer_new(), mtu }
    }

    pub fn mtu(&self) -> (mtu: usize)
        ensures
            mtu == self.spec_mtu(),
    {
        self.mtu
    }

    /// Whether a chunk's worth is waiting: it must be sent before more is
    /// written.
    pub fn is_full(&self) -> (full: bool)
        ensures
            full == (self.pending().len() == self.spec_mtu()),
    {
        buffer_len(&self.write_buffer) == self.mtu
    }

    pub fn is_empty(&self) -> (empty: bool)
        ensures
            empty == (self.pending().len() == 0),
    {
        buffer_len(&self.write_buffer) == 0
    }

    /// Takes as much of `buf` as fits into the current chunk; returns how
    /// much that is.
    pub fn write(&mut self, buf: &[u8]) -> (n: usize)
        requires
            old(self).wf(),
        ensures
            final(self).wf(),
            n == write_size(old(self).pending(), buf@, old(self).spec_mtu() as int),
            n <= buf@.len(),
            n <= old(self).spec_mtu() - old(self).pending().len(),
            n == buf@.len() || n == old(self).spec_mtu() - old(self).pending().len(),
            final(self).pending() == old(self).pending() + buf@.take(n as int),
            final(self).spec_mtu() == old(self).spec_mtu(),
    {
        let room = self.mtu - buffer_len(&self.write_buffer);
        let n = if buf.len() < room {
            buf.len()
        } else {
            room
        };
        let taken = vstd::slice::slice_subrange(buf, 0, n);
        buffer_extend(&mut self.write_buffer, taken);
        assert(taken@ =~= buf@.take(n as int));
        n
    }

    /// Takes the waiting bytes out, as the payload of the next chunk.
    pub fn take(&mut self) -> (data: Bytes)
        requires
            old(self).wf(),
        ensures
            final(self).wf(),
            bytes_contents(data) == old(self).pending(),
            bytes_contents(data).len() <= old(self).spec_mtu(),
            final(self).pending() == Seq::<u8>::empty(),
            final(self).spec_mtu() == old(self).spec_mtu(),
    {
        buffer_take_frozen(&mut self.write_buffer)
    }
}

/// What has been received on a channel and not read yet.
#[derive(Debug)]
pub struct ReadBuffer {
    read_buffer: Bytes,
}

impl ReadBuffer {
    /// The bytes not read yet.
    pub closed spec fn unread(&self) -> Seq<u8> {
        bytes_contents(self.read_buffer)
    }

    pub fn new() -> (b: Self)
        ensures
            b.unread() == Seq::<u8>::empty(),
    {
        ReadBuffer { read_buffer: bytes_new() }
    }

    /// Whether a chunk must be received before anything can be read; a
    /// chunk without payload leaves it so.
    pub fn is_empty(&self) -> (empty: bool)
        ensures
            empty == (self.unread().len() == 0),
    {
        bytes_len(&self.read_buffer) == 0
    }

    /// Puts a received chunk's payload up for reading.
    pub fn fill(&mut self, data: Bytes)
        ensures
            final(self).unread() == bytes_contents(data),
    {
        self.read_buffer = data;
    }

    /// The bytes up for reading.
    pub fn available(&self) -> (bytes: &Bytes)
        ensures
            bytes_contents(*bytes) == self.unread(),
    {
        &self.read_buffer
    }

    /// How many bytes a read into `capacity` bytes of room takes.
    pub fn read_len(&self, capacity: usize) -> (n: usize)
        ensures
            n == read_size(self.unread(), capacity as int),
            n <= self.unread().len(),
            n <= capacity,
            n == self.unread().len() || n == capacity,
    {
        let len = bytes_len(&self.read_buffer);
        if len < capacity {
            len
        } else {
            capacity
        }
    }

    /// One decision of a read that waits for data: given what polling the
    /// channel for the next chunk gave, with nothing unread, says how the
    /// read goes on. A chunk's payload is put up for reading; an empty one
    /// leaves nothing to read, so the channel is polled again. At the end
    /// of the channel the read is ready with nothing unread, which tells
    /// the reader that the stream has ended; an error is passed on.
    pub fn on_poll<E>(&mut self, polled: ChunkPoll<E>) -> (step: FillStep<E>)
        requires
            old(self).unread().len() == 0,
        ensures
            match polled {
                ChunkPoll::Pending => step is Pending && final(self).unread() == old(self).unread(),
                ChunkPoll::End => step is Ready && final(self).unread() == old(self).unread(),
                ChunkPoll::Failed(e) => (step matches FillStep::Failed(f) && f == e)
                    && final(self).unread() == old(self).unread(),
                ChunkPoll::Data(data) => {
                    &&& final(self).unread() == bytes_contents(data)
                    &&& if bytes_contents(data).len() == 0 {
                        step is PollAgain
                    } else {
                        step is Ready
                    }
                },
            },
    {
        match polled {
            ChunkPoll::Pending => FillStep::Pending,
            ChunkPoll::End => FillStep::Ready,
            ChunkPoll::Failed(e) => FillStep::Failed(e),
            ChunkPoll::Data(data) => {
                self.fill(data);
                if self.is_empty() {
                    FillStep::PollAgain
                } else {
                    FillStep::Ready
                }
            },
        }
    }

    /// Marks the first `amt` bytes as read.
    pub fn consume(&mut self, amt: usize)
        requires
            amt <= old(self).unread().len(),
        ensures
            final(self).unread() == old(self).unread().skip(amt as int),
    {
        let _consumed = bytes_split_to(&mut self.read_buffer, amt);
    }
}

/// What polling a channel for its next chunk gave.
pub enum ChunkPoll<E> {
    /// No chunk yet.
    Pending,
    /// The channel has ended.
    End,
    /// The channel reported an error.
    Failed(E),
    /// A chunk's payload.
    Data(Bytes),
}

/// How a read that waits for data goes on after one poll of its channel.
#[derive(Debug)]
pub enum FillStep<E> {
    /// Wait to be woken.
    Pending,
    /// Done: the unread bytes are there, or none at the end of the stream.
    Ready,
    /// Fail with the channel's error.
    Failed(E),
    /// The chunk was empty: poll the channel again.
    PollAgain,
}

/// How many bytes a read into `capacity` bytes of room takes from `unread`.
pub open spec fn read_size(unread: Seq<u8>, capacity: int) -> int {
    if unread.len() < capacity {
        unread.len() as int
    } else {
        capacity
    }
}

/// The bytes that reads into rooms of the given sizes take, one after the
/// other, from `unread`.
pub open spec fn read_pieces(unread: Seq<u8>, capacities: Seq<usize>) -> Seq<u8>
    decreases capacities.len(),
{
    if capacities.len() == 0 {
        Seq::empty()
    } else {
        let n = read_size(unread, capacities[0] as int);
        unread.take(n) + read_pieces(unread.skip(n), capacities.drop_first())
    }
}

/// However a received chunk is read, in pieces of whatever sizes, the
/// bytes come out in the order they were received, none lost and none
/// repeated: what the reads return is the front of the chunk.
pub proof fn lemma_reads_preserve_order(unread: Seq<u8>, capacities: Seq<usize>)
    ensures
        read_pieces(unread, capacities).len() <= unread.len(),
        read_pieces(unread, capacities) == unread.take(read_pieces(unread, capacities).len() as int),
    decreases capacities.len(),
{
    if capacities.len() > 0 {
        let n = read_size(unread, capacities[0] as int);
        let rest = unread.skip(n);
        lemma_reads_preserve_order(rest, capacities.drop_first());
        let later = read_pieces(rest, capacities.drop_first());
        assert(unread.take(n) + later =~= unread.take(n + later.len()));
    }
}

/// How many bytes a write of `buf` takes into a buffer holding `pending`.
pub open spec fn write_size(pending: Seq<u8>, buf: Seq<u8>, mtu: int) -> int {
    if buf.len() < mtu - pending.len() {
        buf.len() as int
    } else {
        mtu - pending.len()
    }
}

/// The waiting bytes after writes of the given buffers, one after the
/// other, without a chunk being taken in between.
pub open spec fn after_writes(pending: Seq<u8>, bufs: Seq<Seq<u8>>, mtu: int) -> Seq<u8>
    decreases bufs.len(),
{
    if bufs.len() == 0 {
        pending
    } else {
        let taken = bufs[0].take(write_size(pending, bufs[0], mtu));
        after_writes(pending + taken, bufs.drop_first(), mtu)
    }
}

/// Writes keep what is already waiting, in front, and never fill more than
/// one chunk's payload.
pub proof fn lemma_writes_preserve_order(pending: Seq<u8>, bufs: Seq<Seq<u8>>, mtu: int)
    requires
        pending.len() <= mtu,
    ensures
        pending.len() <= after_writes(pending, bufs, mtu).len() <= mtu,
        after_writes(pending, bufs, mtu).take(pending.len() as int) == pending,
    decreases bufs.len(),
{
    if bufs.len() > 0 {
        let taken = bufs[0].take(write_size(pending, bufs[0], mtu));
        lemma_writes_preserve_order(pending + taken, bufs.drop_first(), mtu);
        let after = after_writes(pending + taken, bufs.drop_first(), mtu);
        assert(after.take((pending + taken).len() as int) == pending + taken);
        assert forall|i: int| 0 <= i < pending.len() implies after[i] == pending[i] by {
            assert(after.take((pending + taken).len() as int)[i] == (pending + taken)[i]);
        }
        assert(after.take(pending.len() as int) =~= pending);
    }
}

/// A write takes as much as fits: the smaller of what is offered and the
/// room left in the chunk. So a write of some bytes into a chunk with room
/// takes at least one byte, and it takes all of them when they fit.
pub proof fn lemma_write_takes_what_fits(pending: Seq<u8>, buf: Seq<u8>, mtu: int)
    requires
        pending.len() <= mtu,
    ensures
        write_size(pending, buf, mtu) <= buf.len(),
        write_size(pending, buf, mtu) <= mtu - pending.len(),
        write_size(pending, buf, mtu) == buf.len() || write_size(pending, buf, mtu) == mtu
            - pending.len(),
        buf.len() > 0 && pending.len() < mtu ==> write_size(pending, buf, mtu) > 0,
        buf.len() <= mtu - pending.len() ==> write_size(pending, buf, mtu) == buf.len(),
{
}

/// A read takes the smaller of what is unread and the room it is given.
/// So a read with room, while bytes are unread, takes at least one byte:
/// a read that takes nothing means the stream has ended or there was no
/// room.
pub proof fn lemma_read_takes_what_fits(unread: Seq<u8>, capacity: int)
    requires
        capacity >= 0,
    ensures
        read_size(unread, capacity) <= unread.len(),
        read_size(unread, capacity) <= capacity,
        read_size(unread, capacity) == unread.len() || read_size(unread, capacity) == capacity,
        unread.len() > 0 && capacity > 0 ==> read_size(unread, capacity) > 0,
        unread.len() <= capacity ==> read_size(unread, capacity) == unread.len(),
{
}

} // verus!
