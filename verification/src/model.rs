//! The mathematical model of one read attempt.
//!
//! A reader holds the bytes it has pulled and not yet handed out (its
//! retained bytes) and knows whether its source has reported its end. One
//! read attempt either serves retained bytes, or pulls exactly one event from
//! the source and serves what came. The executable readers are specified by
//! these functions, and the laws in `session` are proved over them.

use vstd::prelude::*;

verus! {

/// What one pull from a chunk source can yield.
pub enum PullEvent {
    /// Nothing yet: the source will wake the caller.
    Pending,
    /// The source has no further item.
    End,
    /// The source reported a failure.
    Failed(std::io::Error),
    /// The source produced a chunk with these bytes.
    Chunk(Seq<u8>),
}

/// How one read attempt ends.
pub enum ReadOutcome {
    /// The source had nothing yet.
    Pending,
    /// The source's failure, handed on as it came.
    Failed(std::io::Error),
    /// These bytes were handed to the caller; none at the end of the stream.
    Data(Seq<u8>),
}

/// What a reader holds, as far as reading can tell.
pub struct ReaderState {
    /// The bytes pulled from the source and not yet handed out, oldest first.
    pub retained: Seq<u8>,
    /// Whether the source has reported its end.
    pub exhausted: bool,
}

/// The number of bytes that a read with room for `capacity` takes from
/// `available` bytes: the smaller of the two.
pub open spec fn take_len(capacity: nat, available: nat) -> nat {
    if capacity <= available {
        capacity
    } else {
        available
    }
}

/// Whether a read with room for `capacity` bytes has to pull from the
/// source: only when it has room and nothing is retained.
pub open spec fn needs_pull(retained: Seq<u8>, capacity: nat) -> bool {
    capacity > 0 && retained.len() == 0
}

/// The bytes handed out by a read that serves from `retained`.
pub open spec fn served(retained: Seq<u8>, capacity: nat) -> Seq<u8> {
    retained.take(take_len(capacity, retained.len()) as int)
}

/// The bytes still retained after a read that serves from `retained`.
pub open spec fn kept(retained: Seq<u8>, capacity: nat) -> Seq<u8> {
    retained.skip(take_len(capacity, retained.len()) as int)
}

/// The bytes retained after a pull that yielded `event`, by a reader that
/// retained nothing before.
pub open spec fn accepted_retained(event: PullEvent, capacity: nat) -> Seq<u8> {
    match event {
        PullEvent::Chunk(bytes) => kept(bytes, capacity),
        _ => Seq::empty(),
    }
}

/// How a read ends whose pull yielded `event`.
pub open spec fn accepted_outcome(event: PullEvent, capacity: nat) -> ReadOutcome {
    match event {
        PullEvent::Pending => ReadOutcome::Pending,
        PullEvent::End => ReadOutcome::Data(Seq::empty()),
        PullEvent::Failed(error) => ReadOutcome::Failed(error),
        PullEvent::Chunk(bytes) => ReadOutcome::Data(served(bytes, capacity)),
    }
}

/// Whether a source that had (or had not) reported its end `before` the pull
/// can yield `event` and have (or not have) reported it `after`: a source
/// that has ended only repeats its end, and it has ended after the pull
/// exactly if it had before or says so now.
pub open spec fn pull_allowed(before: bool, event: PullEvent, after: bool) -> bool {
    &&& before ==> event is End
    &&& after == (before || event is End)
}

/// Whether one read attempt with room for `capacity` bytes can take a reader
/// from `pre` to `post` and end with `outcome`.
///
/// A read that needs no pull is fully determined. One that pulls is
/// determined by the event that the source yields, which no reader can know
/// beforehand: the relation holds for each event that the source may yield.
pub open spec fn read_attempt(
    pre: ReaderState,
    capacity: nat,
    post: ReaderState,
    outcome: ReadOutcome,
) -> bool {
    if needs_pull(pre.retained, capacity) {
        exists|event: PullEvent|
            {
                &&& pull_allowed(pre.exhausted, event, post.exhausted)
                &&& post.retained == accepted_retained(event, capacity)
                &&& outcome == #[trigger] accepted_outcome(event, capacity)
            }
    } else {
        &&& post.exhausted == pre.exhausted
        &&& post.retained == kept(pre.retained, capacity)
        &&& outcome == ReadOutcome::Data(served(pre.retained, capacity))
    }
}

/// The event behind a read attempt that pulled.
pub open spec fn pulled_event(
    pre: ReaderState,
    capacity: nat,
    post: ReaderState,
    outcome: ReadOutcome,
) -> PullEvent {
    choose|event: PullEvent|
        {
            &&& pull_allowed(pre.exhausted, event, post.exhausted)
            &&& post.retained == accepted_retained(event, capacity)
            &&& outcome == #[trigger] accepted_outcome(event, capacity)
        }
}

/// The bytes that a read attempt hands out fit the room that it was given.
pub proof fn lemma_outcome_fits(pre: ReaderState, capacity: nat, post: ReaderState, bytes: Seq<u8>)
    requires
        read_attempt(pre, capacity, post, ReadOutcome::Data(bytes)),
    ensures
        bytes.len() <= capacity,
{
    if needs_pull(pre.retained, capacity) {
        let event = pulled_event(pre, capacity, post, ReadOutcome::Data(bytes));
        assert(ReadOutcome::Data(bytes) == accepted_outcome(event, capacity));
    }
}

/// A read attempt that hands on a failure, or finds the source pending,
/// leaves the reader's state as it was.
pub proof fn lemma_only_data_changes_state(
    pre: ReaderState,
    capacity: nat,
    post: ReaderState,
    outcome: ReadOutcome,
)
    requires
        read_attempt(pre, capacity, post, outcome),
        !(outcome is Data),
    ensures
        post == pre,
{
    assert(needs_pull(pre.retained, capacity));
    let event = pulled_event(pre, capacity, post, outcome);
    assert(outcome == accepted_outcome(event, capacity));
    assert(post.retained =~= pre.retained);
}

/// A read attempt without room hands out nothing, pulls nothing and leaves
/// the reader's state as it was.
pub proof fn lemma_no_room_reads_nothing(pre: ReaderState, post: ReaderState, outcome: ReadOutcome)
    requires
        read_attempt(pre, 0, post, outcome),
    ensures
        !needs_pull(pre.retained, 0),
        outcome == ReadOutcome::Data(Seq::<u8>::empty()),
        post == pre,
{
    assert(served(pre.retained, 0) =~= Seq::<u8>::empty());
    assert(kept(pre.retained, 0) =~= pre.retained);
}

/// Once its source has reported the end and nothing is retained, a reader
/// hands out nothing more: every read attempt gives no bytes and no failure,
/// and leaves the reader's state as it was.
pub proof fn lemma_exhausted_reads_nothing(
    pre: ReaderState,
    capacity: nat,
    post: ReaderState,
    outcome: ReadOutcome,
)
    requires
        read_attempt(pre, capacity, post, outcome),
        pre.exhausted,
        pre.retained.len() == 0,
    ensures
        outcome == ReadOutcome::Data(Seq::<u8>::empty()),
        post == pre,
{
    if needs_pull(pre.retained, capacity) {
        let event = pulled_event(pre, capacity, post, outcome);
        assert(event is End);
        assert(outcome == accepted_outcome(event, capacity));
        assert(post.retained =~= pre.retained);
    } else {
        assert(served(pre.retained, capacity) =~= Seq::<u8>::empty());
        assert(kept(pre.retained, capacity) =~= pre.retained);
    }
}

/// A source that has reported its end has reported it for good: no read
/// attempt takes that back.
pub proof fn lemma_exhaustion_lasts(
    pre: ReaderState,
    capacity: nat,
    post: ReaderState,
    outcome: ReadOutcome,
)
    requires
        read_attempt(pre, capacity, post, outcome),
        pre.exhausted,
    ensures
        post.exhausted,
{
    if needs_pull(pre.retained, capacity) {
        let event = pulled_event(pre, capacity, post, outcome);
        assert(pull_allowed(pre.exhausted, event, post.exhausted));
    }
}

/// A read attempt hands out retained bytes before it pulls: with bytes
/// retained and room for some, it gives the oldest of them, as many as fit,
/// whatever the source would have yielded.
pub proof fn lemma_retained_bytes_come_first(
    pre: ReaderState,
    capacity: nat,
    post: ReaderState,
    outcome: ReadOutcome,
)
    requires
        read_attempt(pre, capacity, post, outcome),
        pre.retained.len() > 0,
    ensures
        outcome == ReadOutcome::Data(served(pre.retained, capacity)),
        served(pre.retained, capacity) + post.retained == pre.retained,
        post.exhausted == pre.exhausted,
{
    assert(served(pre.retained, capacity) + kept(pre.retained, capacity) =~= pre.retained);
}

} // verus!
