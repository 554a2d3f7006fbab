//! The non-blocking reader over a chunk source.

use crate::chunk::append_chunk;
use crate::chunk::buffer_bytes;
use crate::chunk::buffer_slice;
use crate::model::accepted_outcome;
use crate::model::accepted_retained;
use crate::model::kept;
use crate::model::lemma_outcome_fits;
use crate::model::needs_pull;
use crate::model::read_attempt;
use crate::model::served;
use crate::model::PullEvent;
use crate::model::ReadOutcome;
use crate::model::ReaderState;
use crate::source::pull_step;
use crate::source::source_done;
use crate::source::ChunkSource;
use crate::source::Pulled;
use crate::target::fill_front;
use crate::target::filled_bytes;
use crate::target::target_capacity;
use crate::task::into_unit_poll;
use crate::task::poll_result;
use crate::task::Polled;
use bytes::BytesMut;
use std::pin::Pin;
use std::task::Context;
use std::task::Poll;
use tokio::io::AsyncRead;
use tokio::io::ReadBuf;
use vstd::prelude::*;

verus! {

/// How a read attempt that hands out a buffer ended, in the model's terms.
pub open spec fn taken_outcome(taken: Polled<BytesMut>) -> ReadOutcome {
    match taken {
        Polled::Pending => ReadOutcome::Pending,
        Polled::Ready(Err(error)) => ReadOutcome::Failed(error),
        Polled::Ready(Ok(front)) => ReadOutcome::Data(buffer_bytes(front)),
    }
}

/// How a read attempt into a `ReadBuf` ended, in the model's terms: on
/// success the bytes handed out are those that the buffer gained.
pub open spec fn put_outcome(done: Polled<()>, before: Seq<u8>, after: Seq<u8>) -> ReadOutcome {
    match done {
        Polled::Pending => ReadOutcome::Pending,
        Polled::Ready(Err(error)) => ReadOutcome::Failed(error),
        Polled::Ready(Ok(_)) => ReadOutcome::Data(after.skip(before.len() as int)),
    }
}

/// How a read attempt into a slice ended, in the model's terms: on success
/// the bytes handed out are the first `count` bytes of the slice.
pub open spec fn fill_outcome(done: Polled<usize>, target: Seq<u8>) -> ReadOutcome {
    match done {
        Polled::Pending => ReadOutcome::Pending,
        Polled::Ready(Err(error)) => ReadOutcome::Failed(error),
        Polled::Ready(Ok(count)) => ReadOutcome::Data(target.take(count as int)),
    }
}

/// The number of bytes that a read attempt into a slice wrote: the count on
/// success, none otherwise.
pub open spec fn fill_count(done: Polled<usize>) -> nat {
    match done {
        Polled::Ready(Ok(count)) => count as nat,
        _ => 0,
    }
}

/// Whether one read attempt into a slice can take the reader from `pre` to
/// `post` and the slice from `before` to `after`, and end with `done`: it is
/// a read attempt with room for the whole slice, the bytes it hands out are
/// written to the front of the slice, and the rest of the slice stays.
pub open spec fn fill_attempt(
    pre: ReaderState,
    before: Seq<u8>,
    post: ReaderState,
    after: Seq<u8>,
    done: Polled<usize>,
) -> bool {
    &&& read_attempt(pre, before.len(), post, fill_outcome(done, after))
    &&& after.len() == before.len()
    &&& fill_count(done) <= before.len()
    &&& after.skip(fill_count(done) as int) == before.skip(fill_count(done) as int)
}

/// Whether one read attempt with room for `capacity` bytes can take the
/// source from `before` to `after` and the reader from `pre` to `post`, and
/// end with `outcome`.
///
/// A read that has no room, or retains bytes, leaves the source as it was and
/// serves from what is retained. Any other read makes one poll of the source,
/// and is what that poll's event makes it.
pub open spec fn attempt_on(
    before: ChunkSource,
    pre: ReaderState,
    capacity: nat,
    after: ChunkSource,
    post: ReaderState,
    outcome: ReadOutcome,
) -> bool {
    if needs_pull(pre.retained, capacity) {
        exists|event: PullEvent|
            {
                &&& #[trigger] pull_step(before, event, after)
                &&& post.retained == accepted_retained(event, capacity)
                &&& outcome == accepted_outcome(event, capacity)
            }
    } else {
        &&& after == before
        &&& post.retained == kept(pre.retained, capacity)
        &&& outcome == ReadOutcome::Data(served(pre.retained, capacity))
    }
}

/// Whether one read attempt into a `ReadBuf` of the given capacity can take
/// the reader from `pre` to `post` and the buffer's filled bytes from
/// `before` to `after`, and end with `done`: it is a read attempt with the
/// room that the buffer has left, the bytes it hands out are appended to the
/// filled bytes, and nothing else is.
pub open spec fn put_attempt(
    pre: ReaderState,
    capacity: nat,
    before: Seq<u8>,
    post: ReaderState,
    after: Seq<u8>,
    done: Polled<()>,
) -> bool {
    &&& read_attempt(pre, (capacity - before.len()) as nat, post, put_outcome(done, before, after))
    &&& before.is_prefix_of(after)
    &&& !(done matches Polled::Ready(Ok(_))) ==> after == before
}

/// Reads a chunk source as a sequence of bytes, without blocking.
///
/// Bytes of a chunk that did not fit the caller's buffer are retained and
/// served first by the next reads, in the order in which they came.
///
/// A failure of the source does not end the stream: the failure is handed
/// on, and the next read pulls from the source again. Only the end that the
/// source reports is final.
pub struct ImplAsyncRead {
    buffer: BytesMut,
    stream: ChunkSource,
}

impl View for ImplAsyncRead {
    type V = ReaderState;

    closed spec fn view(&self) -> ReaderState {
        ReaderState {
            retained: buffer_bytes(self.buffer),
            exhausted: source_done(self.stream),
        }
    }
}

impl ImplAsyncRead {
    /// The source that this reader pulls from. A pull changes it; a read that
    /// leaves it as it was has not pulled.
    pub closed spec fn source(&self) -> ChunkSource {
        self.stream
    }

    /// A reader has seen the end of its source exactly if the source has
    /// reported it.
    pub proof fn lemma_exhausted_is_source_done(&self)
        ensures
            self@.exhausted == source_done(self.source()),
    {
    }

    /// A reader over `stream` that retains nothing yet.
    pub(crate) fn new(stream: ChunkSource) -> (reader: ImplAsyncRead)
        ensures
            reader@.retained == Seq::<u8>::empty(),
            reader@.exhausted == source_done(stream),
            reader.source() == stream,
    {
        ImplAsyncRead { buffer: BytesMut::new(), stream }
    }

    /// Whether a read with room for `capacity` bytes has to pull from the
    /// source first: only when it has room and nothing is retained.
    pub fn needs_pull(&self, capacity: usize) -> (pull: bool)
        ensures
            pull == needs_pull(self@.retained, capacity as nat),
    {
        capacity > 0 && self.buffer.is_empty()
    }

    /// Hands out the oldest retained bytes, as many as `capacity` admits, and
    /// keeps the rest. The source is not touched.
    pub fn serve(&mut self, capacity: usize) -> (front: BytesMut)
        ensures
            buffer_bytes(front) == served(old(self)@.retained, capacity as nat),
            final(self)@.retained == kept(old(self)@.retained, capacity as nat),
            final(self)@.exhausted == old(self)@.exhausted,
            final(self).source() == old(self).source(),
    {
        let available: usize = self.buffer.len();
        let count: usize = if capacity <= available {
            capacity
        } else {
            available
        };
        self.buffer.split_to(count)
    }

    /// Finishes a read whose pull yielded `pulled`: the end of the source
    /// gives no bytes, a failure is handed on as it came, and a chunk is
    /// retained and served from. The source is not touched.
    ///
    /// A reader pulls only when it retains nothing, so this is asked of the
    /// caller.
    pub fn accept(&mut self, pulled: Pulled, capacity: usize) -> (taken: Polled<BytesMut>)
        requires
            old(self)@.retained.len() == 0,
        ensures
            final(self)@.retained == accepted_retained(pulled@, capacity as nat),
            taken_outcome(taken) == accepted_outcome(pulled@, capacity as nat),
            final(self)@.exhausted == old(self)@.exhausted,
            final(self).source() == old(self).source(),
    {
        match pulled {
            Pulled::Pending => Polled::Pending,
            Pulled::End => Polled::Ready(Ok(BytesMut::new())),
            Pulled::Failed(error) => Polled::Ready(Err(error)),
            Pulled::Chunk(chunk) => {
                // The chunk's length is a `usize`: appending it to the empty
                // buffer cannot overflow.
                let _incoming: usize = chunk.len();
                append_chunk(&mut self.buffer, chunk);
                Polled::Ready(Ok(self.serve(capacity)))
            },
        }
    }

    /// One read attempt with room for `capacity` bytes: serves retained
    /// bytes, or pulls once from the source and serves what came.
    ///
    /// With no room, or with bytes retained, the source is left alone and the
    /// result is exactly what `serve` gives. Otherwise the result is what
    /// `accept` gives for the one event that the source yielded.
    pub fn poll_take(&mut self, cx: &mut Context<'_>, capacity: usize) -> (taken: Polled<BytesMut>)
        ensures
            read_attempt(old(self)@, capacity as nat, final(self)@, taken_outcome(taken)),
            attempt_on(
                old(self).source(),
                old(self)@,
                capacity as nat,
                final(self).source(),
                final(self)@,
                taken_outcome(taken),
            ),
    {
        if self.needs_pull(capacity) {
            let pulled = self.stream.poll(cx);
            assert(pull_step(old(self).source(), pulled@, self.source()));
            self.accept(pulled, capacity)
        } else {
            Polled::Ready(Ok(self.serve(capacity)))
        }
    }

    /// One read attempt into `buf`: what `poll_take` hands out for the room
    /// left in `buf` is appended to it. Nothing else in `buf` changes, and
    /// nothing at all unless bytes were handed out.
    pub fn poll_read(&mut self, cx: &mut Context<'_>, buf: &mut ReadBuf<'_>) -> (done: Polled<()>)
        ensures
            put_attempt(
                old(self)@,
                target_capacity(*old(buf)),
                filled_bytes(*old(buf)),
                final(self)@,
                filled_bytes(*final(buf)),
                done,
            ),
            target_capacity(*final(buf)) == target_capacity(*old(buf)),
            attempt_on(
                old(self).source(),
                old(self)@,
                (target_capacity(*old(buf)) - filled_bytes(*old(buf)).len()) as nat,
                final(self).source(),
                final(self)@,
                put_outcome(done, filled_bytes(*old(buf)), filled_bytes(*final(buf))),
            ),
    {
        let room: usize = buf.remaining();
        match self.poll_take(cx, room) {
            Polled::Pending => Polled::Pending,
            Polled::Ready(Err(error)) => Polled::Ready(Err(error)),
            Polled::Ready(Ok(front)) => {
                proof {
                    lemma_outcome_fits(old(self)@, room as nat, self@, buffer_bytes(front));
                }
                buf.put_slice(buffer_slice(&front));
                assert(filled_bytes(*buf).skip(filled_bytes(*old(buf)).len() as int)
                    =~= buffer_bytes(front));
                Polled::Ready(Ok(()))
            },
        }
    }

    /// One read attempt into the slice `buf`: what `poll_take` hands out for
    /// the length of `buf` is copied to its front. The rest of `buf` stays as
    /// it was, and all of it unless bytes were handed out.
    pub fn poll_fill(&mut self, cx: &mut Context<'_>, buf: &mut [u8]) -> (done: Polled<usize>)
        ensures
            fill_attempt(old(self)@, old(buf)@, final(self)@, final(buf)@, done),
            attempt_on(
                old(self).source(),
                old(self)@,
                old(buf)@.len(),
                final(self).source(),
                final(self)@,
                fill_outcome(done, final(buf)@),
            ),
    {
        let room: usize = buf.len();
        match self.poll_take(cx, room) {
            Polled::Pending => Polled::Pending,
            Polled::Ready(Err(error)) => Polled::Ready(Err(error)),
            Polled::Ready(Ok(front)) => {
                proof {
                    lemma_outcome_fits(old(self)@, room as nat, self@, buffer_bytes(front));
                }
                let count: usize = fill_front(buf, buffer_slice(&front));
                assert(buf@.take(count as int) =~= buffer_bytes(front));
                assert(buf@.skip(count as int) =~= old(buf)@.skip(count as int));
                Polled::Ready(Ok(count))
            },
        }
    }
}

/// A read attempt on a source is a read attempt: what holds of every read
/// attempt holds of the ones that the readers make.
pub proof fn lemma_attempt_on_is_read_attempt(
    before: ChunkSource,
    pre: ReaderState,
    capacity: nat,
    after: ChunkSource,
    post: ReaderState,
    outcome: ReadOutcome,
)
    requires
        attempt_on(before, pre, capacity, after, post, outcome),
        pre.exhausted == source_done(before),
        post.exhausted == source_done(after),
    ensures
        read_attempt(pre, capacity, post, outcome),
{
    if needs_pull(pre.retained, capacity) {
        let event = choose|event: PullEvent|
            {
                &&& #[trigger] pull_step(before, event, after)
                &&& post.retained == accepted_retained(event, capacity)
                &&& outcome == accepted_outcome(event, capacity)
            };
        assert(outcome == accepted_outcome(event, capacity));
    }
}

/// The reader that a pinned reference leads to.
pub uninterp spec fn pinned_reader(reader: Pin<&mut ImplAsyncRead>) -> ImplAsyncRead;

/// The reference inside a pinned reference (`Pin::get_mut`; the reader is
/// `Unpin`): it leads to the reader that the pinned one leads to.
#[verifier::external_body]
fn unpinned<'a>(reader: Pin<&'a mut ImplAsyncRead>) -> (inner: &'a mut ImplAsyncRead)
    ensures
        *inner == pinned_reader(reader),
{
    reader.get_mut()
}

impl AsyncRead for ImplAsyncRead {
    /// One read attempt into `buf`, by the reader behind `self`: the read
    /// attempt of the inherent `poll_read`, in the types of the trait.
    ///
    /// The bytes handed out are appended to `buf`, and the `Poll` returned
    /// holds how the attempt ended. With no room in `buf`, or with bytes
    /// retained, that is ready and without failure; otherwise it is what one
    /// poll of the reader's source makes it. The reader and its source are
    /// left as the attempt leaves them; Verus has no name for what a pinned
    /// reference leads to after the call, so the contract says that there
    /// are such a state and such a source.
    fn poll_read(self: Pin<&mut Self>, cx: &mut Context<'_>, buf: &mut ReadBuf<'_>) -> (poll: Poll<
        Result<(), std::io::Error>,
    >)
        ensures
            exists|post: ReaderState, after: ChunkSource|
                {
                    &&& #[trigger] put_attempt(
                        pinned_reader(self)@,
                        target_capacity(*old(buf)),
                        filled_bytes(*old(buf)),
                        post,
                        filled_bytes(*final(buf)),
                        poll_result(poll),
                    )
                    &&& #[trigger] attempt_on(
                        pinned_reader(self).source(),
                        pinned_reader(self)@,
                        (target_capacity(*old(buf)) - filled_bytes(*old(buf)).len()) as nat,
                        after,
                        post,
                        put_outcome(
                            poll_result(poll),
                            filled_bytes(*old(buf)),
                            filled_bytes(*final(buf)),
                        ),
                    )
                },
            target_capacity(*final(buf)) == target_capacity(*old(buf)),
    {
        let reader = unpinned(self);
        let done = ImplAsyncRead::poll_read(reader, cx, buf);
        assert(put_attempt(
            pinned_reader(self)@,
            target_capacity(*old(buf)),
            filled_bytes(*old(buf)),
            reader@,
            filled_bytes(*buf),
            done,
        ));
        assert(attempt_on(
            pinned_reader(self).source(),
            pinned_reader(self)@,
            (target_capacity(*old(buf)) - filled_bytes(*old(buf)).len()) as nat,
            reader.source(),
            reader@,
            put_outcome(done, filled_bytes(*old(buf)), filled_bytes(*buf)),
        ));
        into_unit_poll(done)
    }
}

} // verus!
