//! What this crate assumes of `bytes::Bytes` and `bytes::BytesMut`.
//!
//! Both are byte containers of the `bytes` crate. Verus sees neither's
//! inside, so each gets a name for the bytes it holds, and every method that
//! the readers call gets a contract over those names. None of these contracts
//! is proved: they restate what the methods' documentation promises.

use bytes::BufMut;
use bytes::Bytes;
use bytes::BytesMut;
use vstd::prelude::*;

verus! {

/// `bytes::Bytes`, a chunk: a run of bytes that is never changed.
#[verifier::external_type_specification]
#[verifier::external_body]
pub struct ExBytes(bytes::Bytes);

/// `bytes::BytesMut`, a growable buffer of bytes.
#[verifier::external_type_specification]
#[verifier::external_body]
pub struct ExBytesMut(bytes::BytesMut);

/// The bytes that a chunk holds, first to last.
pub uninterp spec fn chunk_bytes(chunk: Bytes) -> Seq<u8>;

/// The bytes that a growable buffer holds, first to last.
pub uninterp spec fn buffer_bytes(buffer: BytesMut) -> Seq<u8>;

/// `Bytes::len`: the number of bytes in the chunk.
pub assume_specification[ bytes::Bytes::len ](chunk: &bytes::Bytes) -> (n: usize)
    ensures
        n == chunk_bytes(*chunk).len(),
;

/// `BytesMut::new`: a buffer that holds no byte.
pub assume_specification[ bytes::BytesMut::new ]() -> (buffer: BytesMut)
    ensures
        buffer_bytes(buffer) == Seq::<u8>::empty(),
;

/// `BytesMut::len`: the number of bytes in the buffer.
pub assume_specification[ bytes::BytesMut::len ](buffer: &BytesMut) -> (n: usize)
    ensures
        n == buffer_bytes(*buffer).len(),
;

/// `BytesMut::is_empty`: whether the buffer holds no byte.
pub assume_specification[ bytes::BytesMut::is_empty ](buffer: &BytesMut) -> (empty: bool)
    ensures
        empty == (buffer_bytes(*buffer).len() == 0),
;

/// `BytesMut::split_to`: the first `at` bytes leave the buffer and are
/// returned; the buffer keeps the rest. The method panics when `at` is past
/// the end, so such a call is not admitted.
pub assume_specification[ bytes::BytesMut::split_to ](buffer: &mut BytesMut, at: usize) -> (front: BytesMut)
    requires
        at <= buffer_bytes(*old(buffer)).len(),
    ensures
        buffer_bytes(front) == buffer_bytes(*old(buffer)).take(at as int),
        buffer_bytes(*final(buffer)) == buffer_bytes(*old(buffer)).skip(at as int),
;

/// `BufMut::put` on a `BytesMut`, with a whole chunk as the source: the
/// chunk's bytes are appended. The buffer grows as needed and panics only when
/// the new length overflows `usize`, which the precondition leaves out.
#[verifier::external_body]
pub(crate) fn append_chunk(buffer: &mut BytesMut, chunk: Bytes)
    requires
        buffer_bytes(*old(buffer)).len() + chunk_bytes(chunk).len() <= usize::MAX,
    ensures
        buffer_bytes(*final(buffer)) == buffer_bytes(*old(buffer)) + chunk_bytes(chunk),
{
    buffer.put(chunk)
}

/// `Bytes::from` for a `Vec<u8>`: a chunk that holds the vector's bytes.
#[verifier::external_body]
pub(crate) fn chunk_from_vec(data: Vec<u8>) -> (chunk: Bytes)
    ensures
        chunk_bytes(chunk) == data@,
{
    Bytes::from(data)
}

/// The buffer's bytes as a slice (`AsRef<[u8]>` of `BytesMut`).
#[verifier::external_body]
pub(crate) fn buffer_slice(buffer: &BytesMut) -> (bytes: &[u8])
    ensures
        bytes@ == buffer_bytes(*buffer),
{
    buffer.as_ref()
}

} // verus!
