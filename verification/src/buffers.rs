//! The `bytes` crate's buffers, as the library sees them: sequences of bytes.
use vstd::prelude::*;

use bytes::{Bytes, BytesMut};

verus! {

/// The bytes held by a `bytes::BytesMut`, front first.
pub uninterp spec fn buffer_contents(buffer: BytesMut) -> Seq<u8>;

/// Calls `bytes::BytesMut::len`: the number of bytes held.
#[verifier::external_body]
pub(crate) fn buffer_len(buffer: &BytesMut) -> (n: usize)
    ensures
        n == buffer_contents(*buffer).len(),
{
    buffer.len()
}

/// Calls `bytes::BytesMut::split_to` and copies the split-off front into a
/// `Vec`: the first `at` bytes leave the buffer and are returned, in order;
/// the rest stays. `split_to` panics when `at` exceeds the length, which
/// `requires` rules out.
#[verifier::external_body]
pub(crate) fn buffer_split_to(buffer: &mut BytesMut, at: usize) -> (front: Vec<u8>)
    requires
        at <= buffer_contents(*old(buffer)).len(),
    ensures
        front@ == buffer_contents(*old(buffer)).take(at as int),
        buffer_contents(*final(buffer)) == buffer_contents(*old(buffer)).skip(at as int),
{
    buffer.split_to(at).to_vec()
}

/// Calls `bytes::BytesMut::extend_from_slice`: the bytes are appended at
/// the back.
#[verifier::external_body]
pub(crate) fn buffer_extend(buffer: &mut BytesMut, data: &[u8])
    ensures
        buffer_contents(*final(buffer)) == buffer_contents(*old(buffer)) + data@,
{
    buffer.extend_from_slice(data)
}

/// Writes one byte of a `bytes::BytesMut` in place, through its
/// `DerefMut` to `[u8]`; the index is in bounds by `requires`.
#[verifier::external_body]
pub(crate) fn buffer_set(buffer: &mut BytesMut, index: usize, value: u8)
    requires
        index < buffer_contents(*old(buffer)).len(),
    ensures
        buffer_contents(*final(buffer)) == buffer_contents(*old(buffer)).update(
            index as int,
            value,
        ),
{
    buffer[index] = value
}

/// Calls `bytes::BytesMut::new`: an empty buffer.
#[verifier::external_body]
pub(crate) fn buffer_new() -> (buffer: BytesMut)
    ensures
        buffer_contents(buffer) == Seq::<u8>::empty(),
{
    BytesMut::new()
}

/// Calls `bytes::BytesMut::split`, which takes every byte out of the
/// buffer, and freezes what was taken into `Bytes`: the result holds the
/// buffer's bytes and the buffer is left empty.
#[verifier::external_body]
pub(crate) fn buffer_take_frozen(buffer: &mut BytesMut) -> (taken: Bytes)
    ensures
        bytes_contents(taken) == buffer_contents(*old(buffer)),
        buffer_contents(*final(buffer)) == Seq::<u8>::empty(),
{
    buffer.split().freeze()
}

/// The bytes held by a `bytes::Bytes`, front first.
pub uninterp spec fn bytes_contents(bytes: Bytes) -> Seq<u8>;

/// Calls `bytes::Bytes::new`: no bytes.
#[verifier::external_body]
pub(crate) fn bytes_new() -> (bytes: Bytes)
    ensures
        bytes_contents(bytes) == Seq::<u8>::empty(),
{
    Bytes::new()
}

/// Calls `bytes::Bytes::len`.
#[verifier::external_body]
pub(crate) fn bytes_len(bytes: &Bytes) -> (n: usize)
    ensures
        n == bytes_contents(*bytes).len(),
{
    bytes.len()
}

/// Calls `bytes::Bytes::split_to`: the first `at` bytes are returned and
/// the rest stays; it panics when `at` exceeds the length, which `requires`
/// rules out.
#[verifier::external_body]
pub(crate) fn bytes_split_to(bytes: &mut Bytes, at: usize) -> (front: Bytes)
    requires
        at <= bytes_contents(*old(bytes)).len(),
    ensures
        bytes_contents(front) == bytes_contents(*old(bytes)).take(at as int),
        bytes_contents(*final(bytes)) == bytes_contents(*old(bytes)).skip(at as int),
{
    bytes.split_to(at)
}

} // verus!
