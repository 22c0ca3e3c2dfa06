//! Byte reading on the device's UART, which delivers one byte per poll or
//! reports that none is there yet; one byte can be peeked at and kept for
//! the next read.
use vstd::prelude::*;

verus! {

/// The UART reader's state: the byte peeked at, if any.
#[derive(Debug)]
pub struct Serial {
    peeked: Option<u8>,
}

/// A read in progress into a buffer of `capacity` bytes.
#[derive(Debug)]
pub struct ReadProgress {
    data: Vec<u8>,
    capacity: usize,
    already_read_something: bool,
    done: bool,
}

/// A skip in progress: bytes still to be dropped.
#[derive(Debug)]
pub struct SkipProgress {
    count: usize,
}

impl Serial {
    pub closed spec fn peeked(&self) -> Option<u8> {
        self.peeked
    }

    pub fn new() -> (s: Self)
        ensures
            s.peeked() is None,
    {
        Serial { peeked: None }
    }

    /// Whether the UART must be polled to peek: only when no byte is kept.
    pub fn needs_poll_to_peek(&self) -> (poll: bool)
        ensures
            poll == self.peeked() is None,
    {
        self.peeked.is_none()
    }

    /// Takes the result of polling the UART for a peek; returns the byte
    /// peeked at, which stays for the next read.
    pub fn peek_polled(&mut self, polled: Option<u8>) -> (peeked: Option<u8>)
        requires
            old(self).peeked() is None,
        ensures
            peeked == polled,
            final(self).peeked() == polled,
    {
        self.peeked = polled;
        self.peeked
    }

    /// The byte peeked at, if any; the UART has one ready exactly then.
    pub fn peek_kept(&self) -> (peeked: Option<u8>)
        ensures
            peeked == self.peeked(),
    {
        self.peeked
    }

    /// Starts dropping `count` bytes; a kept byte counts as the first.
    pub fn begin_skip(&mut self, count: usize) -> (skip: SkipProgress)
        ensures
            count == 0 ==> skip.remaining() == 0 && final(self).peeked() == old(self).peeked(),
            count > 0 ==> final(self).peeked() is None && skip.remaining() == (
            if old(self).peeked() is Some {
                count - 1
            } else {
                count as int
            }),
    {
        if count == 0 {
            return SkipProgress { count: 0 };
        }
        let mut count = count;
        if self.peeked.is_some() {
            count = count - 1;
        }
        self.peeked = None;
        SkipProgress { count }
    }

    /// Starts a read into a buffer of `capacity` bytes. A kept byte comes
    /// first. A read into an empty buffer is over at once, and so is one
    /// that the kept byte fills.
    pub fn begin_read(&mut self, capacity: usize) -> (read: ReadProgress)
        ensures
            read.wf(),
            read.capacity() == capacity,
            !read.already_read_something(),
            capacity == 0 ==> read.is_done() && read.data() == Seq::<u8>::empty()
                && final(self).peeked() == old(self).peeked(),
            capacity > 0 ==> final(self).peeked() is None && read.data() == (
            match old(self).peeked() {
                Some(b) => seq![b],
                None => Seq::<u8>::empty(),
            }) && read.is_done() == (read.data().len() == capacity),
    {
        let mut data: Vec<u8> = Vec::new();
        if capacity == 0 {
            return ReadProgress { data, capacity, already_read_something: false, done: true };
        }
        if let Some(peeked) = self.peeked {
            data.push(peeked);
        }
        self.peeked = None;
        assert(data@ =~= match old(self).peeked() {
            Some(b) => seq![b],
            None => Seq::<u8>::empty(),
        });
        let done = data.len() == capacity;
        ReadProgress { data, capacity, already_read_something: false, done }
    }
}

impl SkipProgress {
    pub closed spec fn remaining(&self) -> usize {
        self.count
    }

    pub fn is_done(&self) -> (done: bool)
        ensures
            done == (self.remaining() == 0),
    {
        self.count == 0
    }

    /// Takes one poll of the UART: a byte is dropped; no byte means polling
    /// on.
    pub fn on_poll(&mut self, polled: Option<u8>)
        requires
            old(self).remaining() > 0,
        ensures
            final(self).remaining() == if polled is Some {
                old(self).remaining() - 1
            } else {
                old(self).remaining() as int
            },
    {
        if polled.is_some() {
            self.count = self.count - 1;
        }
    }
}

impl ReadProgress {
    /// The bytes read so far.
    pub closed spec fn data(&self) -> Seq<u8> {
        self.data@
    }

    pub closed spec fn capacity(&self) -> usize {
        self.capacity
    }

    /// Whether a byte has come from the UART itself during this read.
    pub closed spec fn already_read_something(&self) -> bool {
        self.already_read_something
    }

    pub closed spec fn is_done(&self) -> bool {
        self.done
    }

    /// The bytes read never exceed the buffer, and an unfinished read has
    /// room for one more.
    pub open spec fn wf(&self) -> bool {
        &&& self.data().len() <= self.capacity()
        &&& !self.is_done() ==> self.data().len() < self.capacity()
    }

    /// Number of bytes read so far.
    pub fn len(&self) -> (n: usize)
        ensures
            n == self.data().len(),
    {
        self.data.len()
    }

    pub fn done(&self) -> (done: bool)
        ensures
            done == self.is_done(),
    {
        self.done
    }

    /// Takes one poll of the UART. A byte is stored, and the read is over
    /// once the buffer is full. No byte ends the read once the UART has
    /// delivered one; before that, polling goes on.
    pub fn on_poll(&mut self, polled: Option<u8>)
        requires
            old(self).wf(),
            !old(self).is_done(),
        ensures
            final(self).wf(),
            final(self).capacity() == old(self).capacity(),
            match polled {
                Some(b) => {
                    &&& final(self).data() == old(self).data().push(b)
                    &&& final(self).already_read_something()
                    &&& final(self).is_done() == (final(self).data().len()
                        == old(self).capacity())
                },
                None => {
                    &&& final(self).data() == old(self).data()
                    &&& final(self).already_read_something() == old(
                        self,
                    ).already_read_something()
                    &&& final(self).is_done() == old(self).already_read_something()
                },
            },
    {
        match polled {
            Some(byte) => {
                self.data.push(byte);
                self.already_read_something = true;
                if self.data.len() == self.capacity {
                    self.done = true;
                }
            },
            None => {
                if self.already_read_something {
                    self.done = true;
                }
            },
        }
    }

    /// The bytes read, in the order they arrived.
    pub fn finish(self) -> (data: Vec<u8>)
        ensures
            data@ == self.data(),
    {
        self.data
    }
}

} // verus!
