//! The chunk source: any stream of fallible chunks, boxed and fused.

use crate::chunk::chunk_bytes;
use crate::model::pull_allowed;
use crate::model::PullEvent;
use bytes::Bytes;
use futures::future;
use futures::stream;
use futures::stream::Fuse;
use futures::Stream;
use futures::StreamExt;
use std::pin::Pin;
use std::task::Context;
use std::task::Poll;
use vstd::prelude::*;

verus! {

/// A boxed stream of fallible chunks behind `futures::stream::Fuse`.
///
/// Verus cannot take a trait object of `futures::Stream` in a field, so the
/// whole struct is hidden from it and used only through the functions below.
#[verifier::external_body]
pub struct ChunkSource {
    inner: Fuse<Pin<Box<dyn Stream<Item = Result<Bytes, std::io::Error>> + Send + 'static>>>,
}

/// Whether the source has reported its end (`Fuse::is_done`).
pub uninterp spec fn source_done(source: ChunkSource) -> bool;

/// Whether one poll takes the source from `before` to `after` and yields
/// `event`. Which event a poll yields is the stream's to say; this names the
/// step that a poll was, so that a contract can say that a read made one such
/// step and no other.
pub uninterp spec fn pulled_once(before: ChunkSource, event: PullEvent, after: ChunkSource) -> bool;

/// The chunks that the source is certain to yield before it ends, each at
/// the first poll that asks for it: known of a source that was made of a
/// buffer, and of no other.
pub uninterp spec fn certain_chunks(source: ChunkSource) -> Option<Seq<Seq<u8>>>;

/// What a poll of a source, from `before` to `after`, that yields `event`
/// follows:
/// - a source that has reported its end only repeats it, and it has
///   reported its end after the poll exactly if it had before or does now;
/// - a source that is certain of its chunks yields the first of them and is
///   certain of the others, or reports its end when none is left.
pub open spec fn pull_follows(before: ChunkSource, event: PullEvent, after: ChunkSource) -> bool {
    &&& pull_allowed(source_done(before), event, source_done(after))
    &&& certain_chunks(before) matches Some(chunks) ==> if chunks.len() > 0 {
        event == PullEvent::Chunk(chunks[0]) && certain_chunks(after) == Some(chunks.skip(1))
    } else {
        event is End && certain_chunks(after) == Some(chunks)
    }
}

/// What holds of one poll of a source, from `before` to `after`, that
/// yields `event`: it is one poll, and it follows what a source follows.
pub open spec fn pull_step(before: ChunkSource, event: PullEvent, after: ChunkSource) -> bool {
    pulled_once(before, event, after) && pull_follows(before, event, after)
}

/// Whether polls of a source, from `before` to `after`, can find it pending
/// `waits` times and yield `event` at the next.
pub open spec fn pulled_after(
    before: ChunkSource,
    waits: nat,
    event: PullEvent,
    after: ChunkSource,
) -> bool
    decreases waits,
{
    if waits == 0 {
        pull_step(before, event, after)
    } else {
        exists|between: ChunkSource| #[trigger]
            pull_step(before, PullEvent::Pending, between) && pulled_after(
                between,
                (waits - 1) as nat,
                event,
                after,
            )
    }
}

/// What one pull from a chunk source yielded.
#[derive(Debug)]
pub enum Pulled {
    /// Nothing yet: the task will be woken.
    Pending,
    /// The source has no further item.
    End,
    /// The source reported a failure.
    Failed(std::io::Error),
    /// The source produced a chunk.
    Chunk(Bytes),
}

impl View for Pulled {
    type V = PullEvent;

    open spec fn view(&self) -> PullEvent {
        match *self {
            Pulled::Pending => PullEvent::Pending,
            Pulled::End => PullEvent::End,
            Pulled::Failed(error) => PullEvent::Failed(error),
            Pulled::Chunk(chunk) => PullEvent::Chunk(chunk_bytes(chunk)),
        }
    }
}

impl ChunkSource {
    /// Boxes and fuses a stream (`Box::pin`, `StreamExt::fuse`). A fresh
    /// `Fuse` has not seen its stream end.
    #[verifier::external_body]
    pub(crate) fn boxed<S>(stream: S) -> (source: ChunkSource) where
        S: Stream<Item = Result<Bytes, std::io::Error>> + Send + 'static,

        ensures
            !source_done(source),
    {
        let boxed: Pin<Box<dyn Stream<Item = Result<Bytes, std::io::Error>> + Send>> = Box::pin(
            stream,
        );
        ChunkSource { inner: boxed.fuse() }
    }

    /// A source of the one chunk given (`stream::once` over
    /// `future::ready`), boxed and fused like any other. Such a stream gives
    /// its one element at the first poll, since the future is ready, and the
    /// end after it.
    #[verifier::external_body]
    pub(crate) fn once(chunk: Bytes) -> (source: ChunkSource)
        ensures
            !source_done(source),
            certain_chunks(source) == Some(seq![chunk_bytes(chunk)]),
    {
        ChunkSource::boxed(stream::once(future::ready(Ok(chunk))))
    }

    /// Polls the fused stream once (`Stream::poll_next` of `Fuse`).
    ///
    /// What comes back depends on the stream. `Fuse` promises this much: once
    /// it has seen the end it answers every poll with the end, without
    /// asking its stream again, and it has seen the end after a poll exactly
    /// if it had before or reports it now. A source made by `once` yields its
    /// chunk and then its end.
    #[verifier::external_body]
    pub(crate) fn poll(&mut self, cx: &mut Context<'_>) -> (pulled: Pulled)
        ensures
            pulled_once(*old(self), pulled@, *final(self)),
            pull_follows(*old(self), pulled@, *final(self)),
    {
        match self.inner.poll_next_unpin(cx) {
            Poll::Pending => Pulled::Pending,
            Poll::Ready(None) => Pulled::End,
            Poll::Ready(Some(Err(error))) => Pulled::Failed(error),
            Poll::Ready(Some(Ok(chunk))) => Pulled::Chunk(chunk),
        }
    }
}

} // verus!
