//! Whole reading sessions, and the laws that hold of them.
//!
//! `model` says what one read attempt may do for each event that the source
//! may yield. Here the source is given a script, the events that its stream
//! will yield at its next polls, and a reader is run against it. The laws are
//! stated for every script: which one a real source follows is never known
//! beforehand, and nothing here depends on it.

use crate::model::accepted_outcome;
use crate::model::accepted_retained;
use crate::model::kept;
use crate::model::needs_pull;
use crate::model::pull_allowed;
use crate::model::read_attempt;
use crate::model::served;
use crate::model::PullEvent;
use crate::model::ReadOutcome;
use crate::model::ReaderState;
use vstd::prelude::*;

verus! {

/// A reader together with what its source is going to do.
pub struct Session {
    /// The reader's state.
    pub reader: ReaderState,
    /// The events that the source's stream yields at its next polls, in
    /// order. A stream that has been polled past its script reports its end.
    pub script: Seq<PullEvent>,
}

/// A session after a read, and how the read ended.
pub struct Step {
    /// The session after the read.
    pub next: Session,
    /// How the read ended.
    pub outcome: ReadOutcome,
}

/// A session after a sequence of reads, and how each of them ended.
pub struct Run {
    /// The session after the last read.
    pub last: Session,
    /// How the reads ended, first to last.
    pub outcomes: Seq<ReadOutcome>,
}

/// A reader that retains nothing, over a source that has not ended and will
/// follow `script`.
pub open spec fn fresh(script: Seq<PullEvent>) -> Session {
    Session { reader: ReaderState { retained: Seq::empty(), exhausted: false }, script }
}

/// What the next pull yields: the end once the source has reported it or
/// the script is over, the script's first event otherwise.
pub open spec fn next_event(s: Session) -> PullEvent {
    if s.reader.exhausted || s.script.len() == 0 {
        PullEvent::End
    } else {
        s.script[0]
    }
}

/// The script that is left after the next pull. A source that has reported
/// its end does not poll its stream again.
pub open spec fn script_after_pull(s: Session) -> Seq<PullEvent> {
    if s.reader.exhausted || s.script.len() == 0 {
        s.script
    } else {
        s.script.skip(1)
    }
}

/// One read attempt with room for `capacity` bytes.
pub open spec fn session_poll(s: Session, capacity: nat) -> Step {
    if needs_pull(s.reader.retained, capacity) {
        let event = next_event(s);
        Step {
            next: Session {
                reader: ReaderState {
                    retained: accepted_retained(event, capacity),
                    exhausted: s.reader.exhausted || event is End,
                },
                script: script_after_pull(s),
            },
            outcome: accepted_outcome(event, capacity),
        }
    } else {
        Step {
            next: Session {
                reader: ReaderState {
                    retained: kept(s.reader.retained, capacity),
                    exhausted: s.reader.exhausted,
                },
                script: s.script,
            },
            outcome: ReadOutcome::Data(served(s.reader.retained, capacity)),
        }
    }
}

/// Whether the next read attempt would find the source pending.
pub open spec fn pends(s: Session, capacity: nat) -> bool {
    &&& needs_pull(s.reader.retained, capacity)
    &&& !s.reader.exhausted
    &&& s.script.len() > 0
    &&& s.script[0] is Pending
}

/// One read with room for `capacity` bytes, driven until it is ready: an
/// attempt that finds the source pending is made again. This is what a
/// blocking read does, and what a task does that awaits a read.
pub open spec fn session_read(s: Session, capacity: nat) -> Step
    decreases s.script.len(),
{
    if pends(s, capacity) {
        session_read(Session { reader: s.reader, script: s.script.skip(1) }, capacity)
    } else {
        session_poll(s, capacity)
    }
}

/// A sequence of reads, one for each entry of `sizes`, each driven until it
/// is ready.
pub open spec fn session_run(s: Session, sizes: Seq<nat>) -> Run
    decreases sizes.len(),
{
    if sizes.len() == 0 {
        Run { last: s, outcomes: Seq::empty() }
    } else {
        let step = session_read(s, sizes[0]);
        let rest = session_run(step.next, sizes.skip(1));
        Run { last: rest.last, outcomes: seq![step.outcome] + rest.outcomes }
    }
}

/// The bytes that a read handed out: none unless it gave data.
pub open spec fn outcome_bytes(outcome: ReadOutcome) -> Seq<u8> {
    match outcome {
        ReadOutcome::Data(bytes) => bytes,
        _ => Seq::empty(),
    }
}

/// All bytes that a sequence of reads handed out, in the order of the reads.
pub open spec fn delivered(outcomes: Seq<ReadOutcome>) -> Seq<u8>
    decreases outcomes.len(),
{
    if outcomes.len() == 0 {
        Seq::empty()
    } else {
        outcome_bytes(outcomes[0]) + delivered(outcomes.skip(1))
    }
}

/// The bytes of the chunks that a stream following `script` yields before it
/// first reports its end, in order.
pub open spec fn script_bytes(script: Seq<PullEvent>) -> Seq<u8>
    decreases script.len(),
{
    if script.len() == 0 {
        Seq::empty()
    } else {
        match script[0] {
            PullEvent::End => Seq::empty(),
            PullEvent::Chunk(bytes) => bytes + script_bytes(script.skip(1)),
            _ => script_bytes(script.skip(1)),
        }
    }
}

/// The bytes that the source of a session has yet to produce.
pub open spec fn upcoming_bytes(s: Session) -> Seq<u8> {
    if s.reader.exhausted {
        Seq::empty()
    } else {
        script_bytes(s.script)
    }
}

/// The bytes that a session has yet to hand out: those retained, and after
/// them those that the source has yet to produce.
pub open spec fn outstanding(s: Session) -> Seq<u8> {
    s.reader.retained + upcoming_bytes(s)
}

/// The script with its pending polls left out: what the stream produces,
/// whenever it does.
pub open spec fn strip_pending(script: Seq<PullEvent>) -> Seq<PullEvent>
    decreases script.len(),
{
    if script.len() == 0 {
        Seq::empty()
    } else if script[0] is Pending {
        strip_pending(script.skip(1))
    } else {
        seq![script[0]] + strip_pending(script.skip(1))
    }
}

/// The script of a stream that yields the given chunks, each at once, and
/// nothing else.
pub open spec fn chunk_script(chunks: Seq<Seq<u8>>) -> Seq<PullEvent> {
    Seq::new(chunks.len(), |i: int| PullEvent::Chunk(chunks[i]))
}

/// Every read attempt of a session is one that `read_attempt` admits: the
/// sessions show nothing that the readers' contracts exclude.
pub proof fn lemma_poll_is_read_attempt(s: Session, capacity: nat)
    ensures
        read_attempt(
            s.reader,
            capacity,
            session_poll(s, capacity).next.reader,
            session_poll(s, capacity).outcome,
        ),
{
    let step = session_poll(s, capacity);
    if needs_pull(s.reader.retained, capacity) {
        let event = next_event(s);
        assert(pull_allowed(s.reader.exhausted, event, step.next.reader.exhausted));
        assert(step.outcome == accepted_outcome(event, capacity));
    }
}

/// Every read attempt that `read_attempt` admits is the read attempt of some
/// session: the readers' contracts admit nothing that the sessions leave out.
pub proof fn lemma_read_attempt_is_poll(
    pre: ReaderState,
    capacity: nat,
    post: ReaderState,
    outcome: ReadOutcome,
) -> (script: Seq<PullEvent>)
    requires
        read_attempt(pre, capacity, post, outcome),
    ensures
        session_poll(Session { reader: pre, script }, capacity).next.reader == post,
        session_poll(Session { reader: pre, script }, capacity).outcome == outcome,
{
    if needs_pull(pre.retained, capacity) {
        let event = choose|event: PullEvent|
            {
                &&& pull_allowed(pre.exhausted, event, post.exhausted)
                &&& post.retained == accepted_retained(event, capacity)
                &&& outcome == #[trigger] accepted_outcome(event, capacity)
            };
        let script = seq![event];
        let s = Session { reader: pre, script };
        assert(next_event(s) == event);
        assert(session_poll(s, capacity).next.reader.retained =~= post.retained);
        script
    } else {
        Seq::empty()
    }
}

} // verus!
