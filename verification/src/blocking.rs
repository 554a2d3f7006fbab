//! The blocking reader: each read runs one read of the non-blocking reader
//! to completion on a runtime of its own.

use crate::model::accepted_outcome;
use crate::model::accepted_retained;
use crate::model::kept;
use crate::model::lemma_only_data_changes_state;
use crate::model::needs_pull;
use crate::model::read_attempt;
use crate::model::served;
use crate::model::PullEvent;
use crate::model::ReadOutcome;
use crate::model::ReaderState;
use crate::reader::fill_attempt;
use crate::reader::fill_outcome;
use crate::reader::ImplAsyncRead;
use crate::model::pull_allowed;
use crate::source::pull_step;
use crate::source::pulled_after;
use crate::source::source_done;
use crate::source::ChunkSource;
use crate::task::into_poll;
use crate::task::new_other_error;
use crate::task::other_error;
use crate::task::Polled;
use futures::future;
use std::io::Read;
use tokio::runtime::Handle;
use tokio::runtime::Runtime;
use tokio::runtime::TryCurrentError;
use vstd::prelude::*;

verus! {

/// `tokio::runtime::Runtime`, on which a blocking read drives its reader.
#[verifier::external_type_specification]
#[verifier::external_body]
pub struct ExRuntime(tokio::runtime::Runtime);

/// `tokio::runtime::TryCurrentError`, with which tokio says that a thread
/// has no runtime. Only tokio makes one.
#[verifier::external_type_specification]
#[verifier::external_body]
pub struct ExTryCurrentError(tokio::runtime::TryCurrentError);

/// A runtime with the default configuration (`Runtime::new`). Whether the
/// machine can set one up is not ours to say, so nothing is promised.
#[verifier::external_body]
fn new_runtime() -> Result<Runtime, std::io::Error> {
    Runtime::new()
}

/// Looks for a runtime on the calling thread (`Handle::try_current`), and
/// returns tokio's word that there is none, if there is none. What comes
/// back depends on the thread, so nothing is promised.
#[verifier::external_body]
fn outside_runtime() -> Option<TryCurrentError> {
    match Handle::try_current() {
        Err(missing) if missing.is_missing_context() => Some(missing),
        _ => None,
    }
}

/// Gives a runtime up without waiting for it (`Runtime::shutdown_background`),
/// which tokio allows on a thread that is inside a runtime, where dropping
/// one is not allowed.
#[verifier::external_body]
fn release(runtime: Runtime) {
    runtime.shutdown_background()
}

/// Runs read attempts of `reader` into `buf` on the runtime until one is
/// ready, and returns what that one gave (`Runtime::block_on` over
/// `future::poll_fn`).
///
/// `block_on` panics on a thread that is inside a runtime. Such a thread has
/// a runtime's handle, so `outside` is asked for: tokio's word that the
/// thread has none, which nothing but `outside_runtime` can give and which
/// is used up here.
///
/// `poll_fn` makes a future whose every poll is one call of its closure, here
/// one call of `ImplAsyncRead::poll_fill`, and `block_on` polls that future
/// until it is ready and returns its value. An attempt that is not ready
/// has polled the source once, found it pending and left the reader's state
/// and the slice as they were. So what `poll_fill` ensures of its one attempt
/// holds of the ready attempt, from the state before this call to the state
/// after it, with the source polled as often before as it was pending. The
/// call does not return while the source stays pending.
#[verifier::external_body]
fn block_on_fill(
    outside: TryCurrentError,
    runtime: &Runtime,
    reader: &mut ImplAsyncRead,
    buf: &mut [u8],
) -> (done: Result<usize, std::io::Error>)
    ensures
        fill_attempt(old(reader)@, old(buf)@, final(reader)@, final(buf)@, Polled::Ready(done)),
        driven_on(
            old(reader).source(),
            old(reader)@,
            old(buf)@.len(),
            final(reader).source(),
            final(reader)@,
            fill_outcome(Polled::Ready(done), final(buf)@),
        ),
{
    drop(outside);
    runtime.block_on(future::poll_fn(|cx| into_poll(reader.poll_fill(cx, &mut *buf))))
}

/// Whether one read with room for `capacity` bytes, driven until it is
/// ready, can take the source from `before` to `after` and the reader from
/// `pre` to `post`, and end with `outcome`.
///
/// A read that has no room, or retains bytes, leaves the source as it was and
/// serves from what is retained. Any other read polls the source until it is
/// not pending, and is what the event of that one poll makes it.
pub open spec fn driven_on(
    before: ChunkSource,
    pre: ReaderState,
    capacity: nat,
    after: ChunkSource,
    post: ReaderState,
    outcome: ReadOutcome,
) -> bool {
    if needs_pull(pre.retained, capacity) {
        exists|waits: nat, event: PullEvent|
            {
                &&& #[trigger] pulled_after(before, waits, event, after)
                &&& !(event is Pending)
                &&& post.retained == accepted_retained(event, capacity)
                &&& outcome == accepted_outcome(event, capacity)
            }
    } else {
        &&& after == before
        &&& post.retained == kept(pre.retained, capacity)
        &&& outcome == ReadOutcome::Data(served(pre.retained, capacity))
    }
}

/// Polls that found the source pending left its end unreported, and the
/// poll after them is one that a source in that state allows.
pub proof fn lemma_pulled_after_is_allowed(
    before: ChunkSource,
    waits: nat,
    event: PullEvent,
    after: ChunkSource,
)
    requires
        pulled_after(before, waits, event, after),
    ensures
        pull_allowed(source_done(before), event, source_done(after)),
    decreases waits,
{
    if waits > 0 {
        let between = choose|between: ChunkSource| #[trigger]
            pull_step(before, PullEvent::Pending, between) && pulled_after(
                between,
                (waits - 1) as nat,
                event,
                after,
            );
        lemma_pulled_after_is_allowed(between, (waits - 1) as nat, event, after);
    }
}

/// A read driven until it is ready is a read attempt that is ready: what
/// holds of every read attempt holds of the blocking reads.
pub proof fn lemma_driven_on_is_read_attempt(
    before: ChunkSource,
    pre: ReaderState,
    capacity: nat,
    after: ChunkSource,
    post: ReaderState,
    outcome: ReadOutcome,
)
    requires
        driven_on(before, pre, capacity, after, post, outcome),
        pre.exhausted == source_done(before),
        post.exhausted == source_done(after),
    ensures
        read_attempt(pre, capacity, post, outcome),
        !(outcome is Pending),
{
    if needs_pull(pre.retained, capacity) {
        let (waits, event) = choose|waits: nat, event: PullEvent|
            {
                &&& #[trigger] pulled_after(before, waits, event, after)
                &&& !(event is Pending)
                &&& post.retained == accepted_retained(event, capacity)
                &&& outcome == accepted_outcome(event, capacity)
            };
        lemma_pulled_after_is_allowed(before, waits, event, after);
        assert(outcome == accepted_outcome(event, capacity));
    }
}

/// The message of the failure with which a blocking read refuses to run on
/// a thread that has a runtime.
pub open spec fn refusal_message() -> Seq<char> {
    "cannot block on a read on a thread that has a runtime"@
}

/// The failure with which a blocking read refuses to run on a thread that
/// has a runtime.
pub open spec fn refusal() -> std::io::Error {
    other_error(refusal_message())
}

/// Reads a chunk source as a sequence of bytes, blocking the calling thread
/// until bytes, the end or a failure is there.
///
/// A failure of the source does not end the stream: the failure is handed
/// on, and the next read pulls from the source again. Only the end that the
/// source reports is final.
///
/// The reader is for threads that have no runtime of their own. On a thread
/// that has one, inside a runtime or holding its handle, a read is refused
/// with a failure and reads nothing.
pub struct ImplBlockingRead {
    inner: ImplAsyncRead,
}

impl View for ImplBlockingRead {
    type V = ReaderState;

    closed spec fn view(&self) -> ReaderState {
        self.inner@
    }
}

/// Whether a read left the reader, its source and the slice as they were.
pub open spec fn untouched(
    before: ImplBlockingRead,
    target: Seq<u8>,
    after: ImplBlockingRead,
    written: Seq<u8>,
) -> bool {
    &&& written == target
    &&& after@ == before@
    &&& after.source() == before.source()
}

/// Whether a blocking read on a runtime can take the reader from `before` to
/// `after` and the slice from `target` to `written`, and end with `done`: it
/// is one read attempt into the slice, for which the source was polled until
/// it was not pending.
pub open spec fn driven_read(
    before: ImplBlockingRead,
    target: Seq<u8>,
    after: ImplBlockingRead,
    written: Seq<u8>,
    done: Result<usize, std::io::Error>,
) -> bool {
    &&& fill_attempt(before@, target, after@, written, Polled::Ready(done))
    &&& driven_on(
        before.source(),
        before@,
        target.len(),
        after.source(),
        after@,
        fill_outcome(Polled::Ready(done), written),
    )
}

impl ImplBlockingRead {
    /// The source that this reader pulls from.
    pub closed spec fn source(&self) -> ChunkSource {
        self.inner.source()
    }

    /// A reader has seen the end of its source exactly if the source has
    /// reported it.
    pub proof fn lemma_exhausted_is_source_done(&self)
        ensures
            self@.exhausted == source_done(self.source()),
    {
        self.inner.lemma_exhausted_is_source_done();
    }

    /// A reader over `stream` that retains nothing yet.
    pub(crate) fn new(stream: ChunkSource) -> (reader: ImplBlockingRead)
        ensures
            reader@.retained == Seq::<u8>::empty(),
            reader@.exhausted == source_done(stream),
            reader.source() == stream,
    {
        ImplBlockingRead { inner: ImplAsyncRead::new(stream) }
    }

    /// One blocking read into `buf`, given how setting up the runtime went.
    ///
    /// A failure to set up the runtime is returned as it came, and nothing is
    /// read. On a thread that has a runtime already, blocking would make
    /// tokio panic: the runtime given is given up, the read is refused with
    /// the failure `refusal()`, and nothing is read. Otherwise one read of the
    /// inner reader is driven to completion on the runtime: the result is
    /// that of the read attempt that was ready, the bytes it handed out are
    /// at the front of `buf`, and the rest of `buf` stays. Which of the last
    /// two it is depends on the thread alone.
    ///
    /// The call does not return while the source stays pending.
    pub fn read_on(&mut self, runtime: Result<Runtime, std::io::Error>, buf: &mut [u8]) -> (done:
        Result<usize, std::io::Error>)
        ensures
            match runtime {
                Err(error) => {
                    &&& done == Err::<usize, std::io::Error>(error)
                    &&& untouched(*old(self), old(buf)@, *final(self), final(buf)@)
                },
                Ok(_) => {
                    ||| {
                        &&& done == Err::<usize, std::io::Error>(refusal())
                        &&& untouched(*old(self), old(buf)@, *final(self), final(buf)@)
                    }
                    ||| driven_read(*old(self), old(buf)@, *final(self), final(buf)@, done)
                },
            },
    {
        match runtime {
            Err(error) => Err(error),
            Ok(runtime) => self.read_given(runtime, outside_runtime(), buf),
        }
    }

    /// One blocking read into `buf` on the runtime given, given what the
    /// look for a runtime on this thread found just now.
    ///
    /// With a runtime on the thread, the runtime given is given up, the read
    /// is refused with the failure `refusal()`, and nothing is read. With
    /// tokio's word that there is none, one read of the inner reader is driven
    /// to completion.
    ///
    /// That word is good for the moment it was given, so this function is
    /// private and called with a fresh one.
    fn read_given(&mut self, runtime: Runtime, outside: Option<TryCurrentError>, buf: &mut [u8]) -> (done:
        Result<usize, std::io::Error>)
        ensures
            match outside {
                None => {
                    &&& done == Err::<usize, std::io::Error>(refusal())
                    &&& untouched(*old(self), old(buf)@, *final(self), final(buf)@)
                },
                Some(_) => driven_read(*old(self), old(buf)@, *final(self), final(buf)@, done),
            },
    {
        match outside {
            None => {
                release(runtime);
                Err(new_other_error("cannot block on a read on a thread that has a runtime"))
            },
            Some(outside) => block_on_fill(outside, &runtime, &mut self.inner, buf),
        }
    }
}

/// How a blocking read ended, in the model's terms: on success the bytes
/// handed out are the first `count` bytes of the slice.
pub open spec fn read_outcome(done: Result<usize, std::io::Error>, target: Seq<u8>) -> ReadOutcome {
    match done {
        Ok(count) => ReadOutcome::Data(target.take(count as int)),
        Err(error) => ReadOutcome::Failed(error),
    }
}

impl Read for ImplBlockingRead {
    /// Reads into `buf` and returns the number of bytes written to its
    /// front; zero with `buf` not empty is the end of the stream, or an empty
    /// chunk.
    ///
    /// A runtime is set up first, and the read is what `read_on` gives for
    /// it. So one of three things has happened. The runtime could not be set
    /// up, or the thread has a runtime already and the read was refused with
    /// the failure `refusal()`: a failure is returned, and the reader, its
    /// source and `buf` are as they were. Or one read of the inner reader was
    /// driven to completion: a success is a read attempt that handed out the
    /// bytes now at the front of `buf`, with the rest of `buf` as it was, and
    /// a failure is the source's and leaves the reader's state and `buf` as
    /// they were. Whether a runtime can be set up is the machine's to say, so
    /// no read is certain to succeed.
    ///
    /// The call does not return while the source stays pending.
    fn read(&mut self, buf: &mut [u8]) -> (done: Result<usize, std::io::Error>)
        ensures
            ({
                ||| {
                    &&& done == Err::<usize, std::io::Error>(refusal())
                    &&& untouched(*old(self), old(buf)@, *final(self), final(buf)@)
                }
                ||| done is Err && untouched(*old(self), old(buf)@, *final(self), final(buf)@)
                ||| driven_read(*old(self), old(buf)@, *final(self), final(buf)@, done)
            }),
            final(buf)@.len() == old(buf)@.len(),
            match done {
                Ok(count) => {
                    &&& count <= old(buf)@.len()
                    &&& final(buf)@.skip(count as int) == old(buf)@.skip(count as int)
                    &&& read_attempt(
                        old(self)@,
                        old(buf)@.len(),
                        final(self)@,
                        read_outcome(done, final(buf)@),
                    )
                },
                Err(_) => final(buf)@ == old(buf)@ && final(self)@ == old(self)@,
            },
    {
        let done = self.read_on(new_runtime(), buf);
        proof {
            if done is Err && driven_read(*old(self), old(buf)@, *self, buf@, done) {
                lemma_only_data_changes_state(
                    old(self)@,
                    old(buf)@.len(),
                    self@,
                    read_outcome(done, buf@),
                );
                assert(buf@ =~= buf@.skip(0));
                assert(old(buf)@ =~= old(buf)@.skip(0));
            }
        }
        done
    }
}

} // verus!
