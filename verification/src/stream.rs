//! The byte stream: a chunk source with an advisory size.

use crate::blocking::ImplBlockingRead;
use crate::chunk::chunk_bytes;
use crate::chunk::chunk_from_vec;
use crate::reader::ImplAsyncRead;
use crate::source::certain_chunks;
use crate::source::pull_step;
use crate::source::source_done;
use crate::source::ChunkSource;
use crate::source::Pulled;
use bytes::Bytes;
use futures::Stream;
use std::task::Context;
use vstd::prelude::*;
use vstd::string::StringExecFns;

verus! {

/// The decimal digit for a value below ten.
pub open spec fn digit(value: nat) -> char {
    seq!['0', '1', '2', '3', '4', '5', '6', '7', '8', '9'][value as int]
}

/// A number in decimal digits, without leading zeros.
pub open spec fn decimal(value: nat) -> Seq<char>
    decreases value,
{
    if value < 10 {
        seq![digit(value)]
    } else {
        decimal(value / 10) + seq![digit(value % 10)]
    }
}

/// The text of a size hint as `std` formats it for debugging: `None`, or
/// `Some(` with the size in decimal digits and `)`.
pub open spec fn hint_debug_text(hint: Option<usize>) -> Seq<char> {
    match hint {
        None => "None"@,
        Some(size) => "Some("@ + decimal(size as nat) + ")"@,
    }
}

/// Formats a size hint with `{:?}` (`std::fmt::Debug` of `Option<usize>`),
/// which writes the variant's name and, in brackets, the number in decimal
/// digits.
#[verifier::external_body]
fn hint_text(hint: Option<usize>) -> (text: String)
    ensures
        text@ == hint_debug_text(hint),
{
    format!("{:?}", hint)
}

/// Stream of bytes.
///
/// It owns one chunk source and carries a size hint: the number of bytes
/// that the stream is said to hold. The hint is set when the stream is made
/// and never held against the bytes that the source produces.
pub struct ByteStream {
    size_hint: Option<usize>,
    inner: ChunkSource,
}

impl ByteStream {
    /// The size hint that the stream carries.
    pub closed spec fn spec_size_hint(&self) -> Option<usize> {
        self.size_hint
    }

    /// The source that the stream pulls from.
    pub closed spec fn source(&self) -> ChunkSource {
        self.inner
    }

    /// A stream over the source given, with the size hint given or without
    /// one. The hint is kept as it is, whatever the source holds, and the
    /// source is neither polled nor measured.
    pub fn with_source(inner: ChunkSource, size_hint: Option<usize>) -> (wrapped: ByteStream)
        ensures
            wrapped.spec_size_hint() == size_hint,
            wrapped.source() == inner,
    {
        ByteStream { size_hint, inner }
    }

    /// Create a new `ByteStream` by wrapping a `futures` stream. It carries
    /// no size hint.
    ///
    /// Verus cannot verify a function that is generic over a
    /// `futures::Stream`, so this contract is assumed of the body, which
    /// boxes the stream and hands it to `with_source`.
    #[verifier::external_body]
    pub fn new<S>(stream: S) -> (wrapped: ByteStream) where
        S: Stream<Item = Result<Bytes, std::io::Error>> + Send + 'static,

        ensures
            wrapped.spec_size_hint() == None::<usize>,
            !source_done(wrapped.source()),
    {
        ByteStream::with_source(ChunkSource::boxed(stream), None)
    }

    /// Creates a new `ByteStream` by wrapping a `futures` stream, with the
    /// size hint given. The hint is kept as it is, whatever the stream holds.
    ///
    /// Verus cannot verify a function that is generic over a
    /// `futures::Stream`, so this contract is assumed of the body, which
    /// boxes the stream and hands it to `with_source`.
    #[verifier::external_body]
    pub fn new_with_size<S>(stream: S, size_hint: usize) -> (wrapped: ByteStream) where
        S: Stream<Item = Result<Bytes, std::io::Error>> + Send + 'static,

        ensures
            wrapped.spec_size_hint() == Some(size_hint),
            !source_done(wrapped.source()),
    {
        ByteStream::with_source(ChunkSource::boxed(stream), Some(size_hint))
    }

    /// The size hint. Asking for it pulls nothing.
    #[verifier::when_used_as_spec(spec_size_hint)]
    pub fn size_hint(&self) -> (hint: Option<usize>)
        ensures
            hint == self.spec_size_hint(),
    {
        self.size_hint
    }

    /// The stream as shown in logs and while debugging: its size hint and
    /// nothing of its chunks.
    pub fn debug_string(&self) -> (text: String)
        ensures
            text@ == "<ByteStream size_hint="@ + hint_debug_text(self.spec_size_hint()) + ">"@,
    {
        let mut text = String::from_str("<ByteStream size_hint=");
        text.append(hint_text(self.size_hint).as_str());
        text.append(">");
        text
    }

    /// Pulls the next item from the source, as it comes: the source is
    /// polled once, nothing is held back, reordered or changed, and the size
    /// hint stays.
    ///
    /// Once the source has reported its end, every pull reports the end. A
    /// stream made of a buffer yields that buffer as one chunk, and its end
    /// after it.
    pub fn poll_next(&mut self, cx: &mut Context<'_>) -> (pulled: Pulled)
        ensures
            pull_step(old(self).source(), pulled@, final(self).source()),
            final(self).spec_size_hint() == old(self).spec_size_hint(),
    {
        self.inner.poll(cx)
    }

    /// Return a reader that consumes the stream without blocking. It retains
    /// nothing yet and pulls from this stream's source.
    pub fn into_async_read(self) -> (reader: ImplAsyncRead)
        ensures
            reader@.retained == Seq::<u8>::empty(),
            reader@.exhausted == source_done(self.source()),
            reader.source() == self.source(),
    {
        ImplAsyncRead::new(self.inner)
    }

    /// Return a reader that consumes the stream with blocking reads. It
    /// retains nothing yet and pulls from this stream's source.
    pub fn into_blocking_read(self) -> (reader: ImplBlockingRead)
        ensures
            reader@.retained == Seq::<u8>::empty(),
            reader@.exhausted == source_done(self.source()),
            reader.source() == self.source(),
    {
        ImplBlockingRead::new(self.inner)
    }
}

impl vstd::std_specs::convert::FromSpecImpl<Bytes> for ByteStream {
    open spec fn obeys_from_spec() -> bool {
        false
    }

    open spec fn from_spec(buf: Bytes) -> ByteStream {
        arbitrary()
    }
}

impl From<Bytes> for ByteStream {
    /// A stream of the one chunk `buf`: it yields that chunk and its end.
    /// Its size hint is the chunk's length.
    fn from(buf: Bytes) -> (wrapped: ByteStream)
        ensures
            wrapped.spec_size_hint() == Some(chunk_bytes(buf).len() as usize),
            chunk_bytes(buf).len() <= usize::MAX,
            !source_done(wrapped.source()),
            certain_chunks(wrapped.source()) == Some(seq![chunk_bytes(buf)]),
    {
        let size: usize = buf.len();
        ByteStream::with_source(ChunkSource::once(buf), Some(size))
    }
}

impl vstd::std_specs::convert::FromSpecImpl<Vec<u8>> for ByteStream {
    open spec fn obeys_from_spec() -> bool {
        false
    }

    open spec fn from_spec(buf: Vec<u8>) -> ByteStream {
        arbitrary()
    }
}

impl From<Vec<u8>> for ByteStream {
    /// A stream of one chunk that holds the bytes of `buf`: it yields that
    /// chunk and its end. Its size hint is the vector's length.
    fn from(buf: Vec<u8>) -> (wrapped: ByteStream)
        ensures
            wrapped.spec_size_hint() == Some(buf@.len() as usize),
            !source_done(wrapped.source()),
            certain_chunks(wrapped.source()) == Some(seq![buf@]),
    {
        let size: usize = buf.len();
        ByteStream::with_source(ChunkSource::once(chunk_from_vec(buf)), Some(size))
    }
}

} // verus!
