//! The laws of reading, proved for every session.

use crate::model::kept;
use crate::model::needs_pull;
use crate::model::served;
use crate::model::PullEvent;
use crate::model::ReadOutcome;
use crate::session::chunk_script;
use crate::session::delivered;
use crate::session::fresh;
use crate::session::next_event;
use crate::session::outcome_bytes;
use crate::session::outstanding;
use crate::session::pends;
use crate::session::script_bytes;
use crate::session::session_poll;
use crate::session::session_read;
use crate::session::session_run;
use crate::session::strip_pending;
use crate::session::Session;
use crate::session::Step;
use vstd::prelude::*;

verus! {

/// A read attempt hands out the first of the bytes that the session has yet
/// to hand out, and leaves the others outstanding, in their order.
pub proof fn lemma_poll_serves_front(s: Session, capacity: nat)
    ensures
        outcome_bytes(session_poll(s, capacity).outcome) + outstanding(
            session_poll(s, capacity).next,
        ) == outstanding(s),
{
    let step = session_poll(s, capacity);
    let retained = s.reader.retained;
    if needs_pull(retained, capacity) {
        assert(retained =~= Seq::<u8>::empty());
        match next_event(s) {
            PullEvent::Chunk(bytes) => {
                assert(served(bytes, capacity) + kept(bytes, capacity) =~= bytes);
                assert(outcome_bytes(step.outcome) + outstanding(step.next) =~= outstanding(s));
            },
            _ => {
                assert(outcome_bytes(step.outcome) + outstanding(step.next) =~= outstanding(s));
            },
        }
    } else {
        assert(served(retained, capacity) + kept(retained, capacity) =~= retained);
        assert(outcome_bytes(step.outcome) + outstanding(step.next) =~= outstanding(s));
    }
}

/// A read driven until it is ready hands out the first of the bytes that the
/// session has yet to hand out, and leaves the others outstanding, in their
/// order.
pub proof fn lemma_read_serves_front(s: Session, capacity: nat)
    ensures
        outcome_bytes(session_read(s, capacity).outcome) + outstanding(
            session_read(s, capacity).next,
        ) == outstanding(s),
    decreases s.script.len(),
{
    if pends(s, capacity) {
        let retry = Session { reader: s.reader, script: s.script.skip(1) };
        lemma_read_serves_front(retry, capacity);
        assert(outstanding(retry) == outstanding(s));
    } else {
        lemma_poll_serves_front(s, capacity);
    }
}

/// Whatever the sizes of the reads, the bytes handed out so far, followed by
/// those that the session has yet to hand out, are the bytes that were
/// outstanding at the start, in their order: no byte is lost, repeated or
/// moved.
pub proof fn lemma_bytes_in_order(s: Session, sizes: Seq<nat>)
    ensures
        session_run(s, sizes).outcomes.len() == sizes.len(),
        delivered(session_run(s, sizes).outcomes) + outstanding(session_run(s, sizes).last)
            == outstanding(s),
    decreases sizes.len(),
{
    let run = session_run(s, sizes);
    if sizes.len() == 0 {
        assert(delivered(run.outcomes) + outstanding(run.last) =~= outstanding(s));
    } else {
        let step = session_read(s, sizes[0]);
        let rest = session_run(step.next, sizes.skip(1));
        lemma_read_serves_front(s, sizes[0]);
        lemma_bytes_in_order(step.next, sizes.skip(1));
        assert(run.outcomes.skip(1) =~= rest.outcomes);
        assert(delivered(run.outcomes) == outcome_bytes(step.outcome) + delivered(rest.outcomes));
        assert(delivered(run.outcomes) + outstanding(run.last) =~= outcome_bytes(step.outcome) + (
        delivered(rest.outcomes) + outstanding(rest.last)));
    }
}

/// A stream that yields the given chunks and nothing else has their
/// concatenation to produce.
pub proof fn lemma_chunk_script_bytes(chunks: Seq<Seq<u8>>)
    ensures
        script_bytes(chunk_script(chunks)) == chunks.flatten(),
    decreases chunks.len(),
{
    if chunks.len() > 0 {
        lemma_chunk_script_bytes(chunks.drop_first());
        assert(chunk_script(chunks).skip(1) =~= chunk_script(chunks.drop_first()));
    }
}

/// Chunk order is preserved: a fresh reader over the chunks `chunks`, read
/// with buffers of any sizes, hands out a prefix of the chunks'
/// concatenation, and what the session has yet to hand out is the rest of
/// it. Once nothing is outstanding, the bytes read are the concatenation of
/// the chunks, wherever the sizes cut it.
pub proof fn lemma_chunk_order_preserved(chunks: Seq<Seq<u8>>, sizes: Seq<nat>)
    ensures
        ({
            let run = session_run(fresh(chunk_script(chunks)), sizes);
            &&& delivered(run.outcomes) + outstanding(run.last) == chunks.flatten()
            &&& outstanding(run.last).len() == 0 ==> delivered(run.outcomes) == chunks.flatten()
        }),
{
    let start = fresh(chunk_script(chunks));
    let run = session_run(start, sizes);
    lemma_bytes_in_order(start, sizes);
    lemma_chunk_script_bytes(chunks);
    assert(outstanding(start) =~= chunks.flatten());
    if outstanding(run.last).len() == 0 {
        assert(delivered(run.outcomes) + outstanding(run.last) =~= delivered(run.outcomes));
    }
}

/// An upper bound on the reads with room that a session can take before it
/// has handed out everything and its source has ended: one for each
/// outstanding byte, one for each event left in the script, and one to find
/// the end.
pub open spec fn reads_to_drain(s: Session) -> nat {
    if s.reader.exhausted {
        outstanding(s).len()
    } else {
        outstanding(s).len() + s.script.len() + 1
    }
}

/// Whether every read of `sizes` has room.
pub open spec fn all_have_room(sizes: Seq<nat>) -> bool {
    forall|i: int| 0 <= i < sizes.len() ==> #[trigger] sizes[i] > 0
}

/// A read with room makes progress: it brings the session nearer to being
/// drained, unless it is drained already.
pub proof fn lemma_read_makes_progress(s: Session, capacity: nat)
    requires
        capacity > 0,
    ensures
        reads_to_drain(s) > 0 ==> reads_to_drain(session_read(s, capacity).next) < reads_to_drain(
            s,
        ),
        reads_to_drain(s) == 0 ==> reads_to_drain(session_read(s, capacity).next) == 0,
    decreases s.script.len(),
{
    if pends(s, capacity) {
        let retry = Session { reader: s.reader, script: s.script.skip(1) };
        lemma_read_makes_progress(retry, capacity);
        assert(outstanding(retry) == outstanding(s));
    } else {
        let step = session_poll(s, capacity);
        lemma_poll_serves_front(s, capacity);
        assert(outstanding(s).len() == outcome_bytes(step.outcome).len() + outstanding(
            step.next,
        ).len());
        if !needs_pull(s.reader.retained, capacity) {
            assert(served(s.reader.retained, capacity).len() > 0);
        }
    }
}

/// Enough reads with room drain a session: after as many as
/// `reads_to_drain` counts, nothing is outstanding and the source has ended.
pub proof fn lemma_reads_drain(s: Session, sizes: Seq<nat>)
    requires
        all_have_room(sizes),
    ensures
        reads_to_drain(session_run(s, sizes).last) + sizes.len() <= reads_to_drain(s)
            || reads_to_drain(session_run(s, sizes).last) == 0,
        sizes.len() >= reads_to_drain(s) ==> {
            &&& outstanding(session_run(s, sizes).last).len() == 0
            &&& session_run(s, sizes).last.reader.exhausted
        },
    decreases sizes.len(),
{
    if sizes.len() > 0 {
        let step = session_read(s, sizes[0]);
        lemma_read_makes_progress(s, sizes[0]);
        assert forall|i: int| 0 <= i < sizes.skip(1).len() implies #[trigger] sizes.skip(1)[i]
            > 0 by {
            assert(sizes.skip(1)[i] == sizes[i + 1]);
        }
        lemma_reads_drain(step.next, sizes.skip(1));
    }
}

/// Chunk order is preserved to the end: a fresh reader over the chunks
/// `chunks`, read with buffers that each have room, hands out exactly the
/// concatenation of the chunks once the reads are as many as the bytes and
/// the chunks together, and one more.
pub proof fn lemma_all_chunks_delivered(chunks: Seq<Seq<u8>>, sizes: Seq<nat>)
    requires
        all_have_room(sizes),
        sizes.len() >= chunks.flatten().len() + chunks.len() + 1,
    ensures
        delivered(session_run(fresh(chunk_script(chunks)), sizes).outcomes) == chunks.flatten(),
{
    let start = fresh(chunk_script(chunks));
    lemma_chunk_script_bytes(chunks);
    assert(outstanding(start) =~= chunks.flatten());
    lemma_reads_drain(start, sizes);
    lemma_chunk_order_preserved(chunks, sizes);
}

/// A read attempt pulls at most once: it takes at most the first event off
/// the script, and none when it has no room or retains bytes. The bytes it
/// hands out after a pull are the first of the one chunk that came, and no
/// more than that chunk holds, whatever room is left.
pub proof fn lemma_one_pull_per_read(s: Session, capacity: nat)
    ensures
        ({
            let step = session_poll(s, capacity);
            &&& step.next.script == s.script || step.next.script == s.script.skip(1)
            &&& !needs_pull(s.reader.retained, capacity) ==> step.next.script == s.script
            &&& needs_pull(s.reader.retained, capacity) ==> match next_event(s) {
                PullEvent::Chunk(bytes) => {
                    &&& outcome_bytes(step.outcome) + step.next.reader.retained == bytes
                    &&& outcome_bytes(step.outcome).len() <= capacity
                },
                _ => outcome_bytes(step.outcome).len() == 0 && step.next.reader.retained.len()
                    == 0,
            }
        }),
{
    let step = session_poll(s, capacity);
    if needs_pull(s.reader.retained, capacity) {
        match next_event(s) {
            PullEvent::Chunk(bytes) => {
                assert(served(bytes, capacity) + kept(bytes, capacity) =~= bytes);
            },
            _ => {},
        }
    }
}

/// A read driven until it is ready takes at most one chunk, failure or end
/// off what the stream produces, however often it found the stream pending.
pub proof fn lemma_one_item_per_read(s: Session, capacity: nat)
    ensures
        ({
            let step = session_read(s, capacity);
            let before = strip_pending(s.script);
            let after = strip_pending(step.next.script);
            &&& !(step.outcome is Pending)
            &&& after == before || after == before.skip(1)
            &&& !needs_pull(s.reader.retained, capacity) ==> step.next.script == s.script
        }),
    decreases s.script.len(),
{
    if pends(s, capacity) {
        let retry = Session { reader: s.reader, script: s.script.skip(1) };
        lemma_one_item_per_read(retry, capacity);
    } else {
        let step = session_poll(s, capacity);
        if needs_pull(s.reader.retained, capacity) && !s.reader.exhausted && s.script.len() > 0 {
            assert(strip_pending(s.script).skip(1) =~= strip_pending(s.script.skip(1)));
        }
    }
}

/// A read attempt without room hands out nothing and changes nothing: it
/// pulls no chunk, and the retained bytes stay.
pub proof fn lemma_no_room_no_pull(s: Session)
    ensures
        session_poll(s, 0) == (Step { next: s, outcome: ReadOutcome::Data(Seq::<u8>::empty()) }),
        session_read(s, 0) == session_poll(s, 0),
{
    assert(served(s.reader.retained, 0) =~= Seq::<u8>::empty());
    assert(kept(s.reader.retained, 0) =~= s.reader.retained);
}

/// Whether a stream that follows `script` produces nothing more before it
/// ends: no failure, and no chunk that holds a byte.
pub open spec fn quiet_script(script: Seq<PullEvent>) -> bool
    decreases script.len(),
{
    if script.len() == 0 {
        true
    } else {
        match script[0] {
            PullEvent::End => true,
            PullEvent::Pending => quiet_script(script.skip(1)),
            PullEvent::Chunk(bytes) => bytes.len() == 0 && quiet_script(script.skip(1)),
            PullEvent::Failed(_) => false,
        }
    }
}

/// Whether a session has nothing more to give: the reader retains nothing,
/// and its source has ended or produces nothing more before it does.
pub open spec fn silent(s: Session) -> bool {
    s.reader.retained.len() == 0 && (s.reader.exhausted || quiet_script(s.script))
}

/// Whether no chunk of the script is empty.
pub open spec fn no_empty_chunk(script: Seq<PullEvent>) -> bool {
    forall|i: int|
        0 <= i < script.len() ==> match #[trigger] script[i] {
            PullEvent::Chunk(bytes) => bytes.len() > 0,
            _ => true,
        }
}

/// The outcome of a read that gave no bytes and no failure.
pub open spec fn nothing_read() -> ReadOutcome {
    ReadOutcome::Data(Seq::<u8>::empty())
}

/// A read of a silent session gives no bytes and no failure, and leaves the
/// session silent.
pub proof fn lemma_silent_read(s: Session, capacity: nat)
    requires
        silent(s),
    ensures
        session_read(s, capacity).outcome == nothing_read(),
        silent(session_read(s, capacity).next),
    decreases s.script.len(),
{
    if pends(s, capacity) {
        lemma_silent_read(Session { reader: s.reader, script: s.script.skip(1) }, capacity);
    } else {
        let step = session_poll(s, capacity);
        if needs_pull(s.reader.retained, capacity) {
            match next_event(s) {
                PullEvent::Chunk(bytes) => {
                    assert(served(bytes, capacity) =~= Seq::<u8>::empty());
                },
                _ => {},
            }
        } else {
            assert(served(s.reader.retained, capacity) =~= Seq::<u8>::empty());
        }
    }
}

/// Silence lasts: every read of a silent session, with buffers of any sizes,
/// gives no bytes and no failure.
pub proof fn lemma_silence_lasts(s: Session, sizes: Seq<nat>)
    requires
        silent(s),
    ensures
        session_run(s, sizes).outcomes.len() == sizes.len(),
        forall|i: int|
            0 <= i < sizes.len() ==> #[trigger] session_run(s, sizes).outcomes[i]
                == nothing_read(),
        silent(session_run(s, sizes).last),
    decreases sizes.len(),
{
    if sizes.len() > 0 {
        let step = session_read(s, sizes[0]);
        lemma_silent_read(s, sizes[0]);
        lemma_silence_lasts(step.next, sizes.skip(1));
    }
}

/// A read with room that gives no bytes and no failure has found the end of
/// the source, unless an empty chunk came: with no empty chunk in the
/// script, the source has ended and nothing is retained.
pub proof fn lemma_zero_read_at_end(s: Session, capacity: nat)
    requires
        capacity > 0,
        no_empty_chunk(s.script),
        session_read(s, capacity).outcome == nothing_read(),
    ensures
        session_read(s, capacity).next.reader.exhausted,
        session_read(s, capacity).next.reader.retained.len() == 0,
        silent(session_read(s, capacity).next),
    decreases s.script.len(),
{
    if pends(s, capacity) {
        let retry = Session { reader: s.reader, script: s.script.skip(1) };
        assert forall|i: int| 0 <= i < retry.script.len() implies match #[trigger] retry.script[i] {
            PullEvent::Chunk(bytes) => bytes.len() > 0,
            _ => true,
        } by {
            assert(retry.script[i] == s.script[i + 1]);
        }
        lemma_zero_read_at_end(retry, capacity);
    } else {
        let step = session_poll(s, capacity);
        if needs_pull(s.reader.retained, capacity) {
            match next_event(s) {
                PullEvent::Chunk(bytes) => {
                    assert(bytes == s.script[0]->Chunk_0);
                    assert(served(bytes, capacity).len() > 0);
                },
                _ => {},
            }
        } else {
            assert(served(s.reader.retained, capacity).len() > 0);
        }
    }
}

/// A read leaves the script without an empty chunk, if it had none.
pub proof fn lemma_read_keeps_no_empty_chunk(s: Session, capacity: nat)
    requires
        no_empty_chunk(s.script),
    ensures
        no_empty_chunk(session_read(s, capacity).next.script),
    decreases s.script.len(),
{
    if s.script.len() > 0 {
        assert forall|i: int| 0 <= i < s.script.skip(1).len() implies match #[trigger] s.script.skip(
            1,
        )[i] {
            PullEvent::Chunk(bytes) => bytes.len() > 0,
            _ => true,
        } by {
            assert(s.script.skip(1)[i] == s.script[i + 1]);
        }
    }
    if pends(s, capacity) {
        lemma_read_keeps_no_empty_chunk(
            Session { reader: s.reader, script: s.script.skip(1) },
            capacity,
        );
    }
}

/// A run whose last read has room and gives no bytes and no failure has
/// handed out everything, if no chunk of the script is empty: nothing is
/// outstanding after it.
pub proof fn lemma_zero_read_ends_run(s: Session, sizes: Seq<nat>)
    requires
        no_empty_chunk(s.script),
        sizes.len() > 0,
        sizes.last() > 0,
        session_run(s, sizes).outcomes.last() == nothing_read(),
    ensures
        outstanding(session_run(s, sizes).last).len() == 0,
    decreases sizes.len(),
{
    let step = session_read(s, sizes[0]);
    let rest = session_run(step.next, sizes.skip(1));
    lemma_bytes_in_order(step.next, sizes.skip(1));
    if sizes.len() == 1 {
        assert(sizes.skip(1).len() == 0);
        assert(session_run(s, sizes).outcomes.last() == step.outcome);
        lemma_zero_read_at_end(s, sizes[0]);
    } else {
        lemma_read_keeps_no_empty_chunk(s, sizes[0]);
        assert(sizes.skip(1).last() == sizes.last());
        assert(session_run(s, sizes).outcomes.last() == rest.outcomes.last());
        lemma_zero_read_ends_run(step.next, sizes.skip(1));
    }
}

/// Whether the script holds chunks and nothing else.
pub open spec fn only_chunks(script: Seq<PullEvent>) -> bool {
    forall|i: int| 0 <= i < script.len() ==> (#[trigger] script[i]) is Chunk
}

/// A read from a stream that yields chunks and nothing else gives data, and
/// leaves such a stream.
pub proof fn lemma_chunk_read_gives_data(s: Session, capacity: nat)
    requires
        only_chunks(s.script),
    ensures
        session_read(s, capacity).outcome is Data,
        only_chunks(session_read(s, capacity).next.script),
{
    if s.script.len() > 0 {
        assert(s.script[0] is Chunk);
        assert forall|i: int| 0 <= i < s.script.skip(1).len() implies (#[trigger] s.script.skip(
            1,
        )[i]) is Chunk by {
            assert(s.script.skip(1)[i] == s.script[i + 1]);
        }
    }
}

/// Every read from a stream that yields chunks and nothing else gives data
/// and no failure.
pub proof fn lemma_chunk_run_gives_data(s: Session, sizes: Seq<nat>)
    requires
        only_chunks(s.script),
    ensures
        session_run(s, sizes).outcomes.len() == sizes.len(),
        forall|i: int|
            0 <= i < sizes.len() ==> (#[trigger] session_run(s, sizes).outcomes[i]) is Data,
    decreases sizes.len(),
{
    if sizes.len() > 0 {
        lemma_chunk_read_gives_data(s, sizes[0]);
        lemma_chunk_run_gives_data(session_read(s, sizes[0]).next, sizes.skip(1));
    }
}

/// The end of the stream is final: once a read has given no bytes and no
/// failure and has left the session silent, every later read gives no bytes
/// and no failure, whatever the sizes of the buffers.
///
/// The second premise is what a read that gives nothing does not itself
/// show. A read without room gives nothing while bytes are still to come,
/// and so does a read that pulled an empty chunk: after those, a later read
/// may give bytes. `lemma_zero_read_at_end` shows that the premise holds
/// after a read with room when no chunk is empty, and
/// `lemma_only_silence_lasts` that without it some later read gives bytes or
/// a failure.
pub proof fn lemma_end_of_stream_idempotent(s: Session, capacity: nat, sizes: Seq<nat>)
    requires
        session_read(s, capacity).outcome == nothing_read(),
        silent(session_read(s, capacity).next),
    ensures
        session_run(session_read(s, capacity).next, sizes).outcomes.len() == sizes.len(),
        forall|i: int|
            0 <= i < sizes.len() ==> #[trigger] session_run(
                session_read(s, capacity).next,
                sizes,
            ).outcomes[i] == nothing_read(),
{
    lemma_silence_lasts(session_read(s, capacity).next, sizes);
}

/// The end of the stream is final, for streams without empty chunks: once a
/// read with room has given no bytes and no failure, every later read gives
/// no bytes and no failure, whatever the sizes of the buffers.
pub proof fn lemma_end_of_stream_idempotent_without_empty_chunks(
    s: Session,
    capacity: nat,
    sizes: Seq<nat>,
)
    requires
        capacity > 0,
        no_empty_chunk(s.script),
        session_read(s, capacity).outcome == nothing_read(),
    ensures
        session_run(session_read(s, capacity).next, sizes).outcomes.len() == sizes.len(),
        forall|i: int|
            0 <= i < sizes.len() ==> #[trigger] session_run(
                session_read(s, capacity).next,
                sizes,
            ).outcomes[i] == nothing_read(),
{
    lemma_zero_read_at_end(s, capacity);
    lemma_silence_lasts(session_read(s, capacity).next, sizes);
}

/// `count` reads, each with room for one byte.
pub open spec fn single_bytes(count: nat) -> Seq<nat> {
    Seq::new(count, |i: int| 1nat)
}

/// Only silence lasts: a session that is not silent gives bytes or a failure
/// within as many reads of one byte as its script has events, and one more.
/// The index of such a read is returned.
pub proof fn lemma_only_silence_lasts(s: Session) -> (index: int)
    requires
        !silent(s),
    ensures
        0 <= index <= s.script.len(),
        session_run(s, single_bytes(s.script.len() + 1)).outcomes.len() == s.script.len() + 1,
        session_run(s, single_bytes(s.script.len() + 1)).outcomes[index] != nothing_read(),
{
    lemma_loud_within(s, s.script.len() + 1)
}

/// A session that is not silent gives bytes or a failure within `count`
/// reads of one byte, if `count` is more than the events of its script.
proof fn lemma_loud_within(s: Session, count: nat) -> (index: int)
    requires
        !silent(s),
        count > s.script.len(),
    ensures
        0 <= index <= s.script.len(),
        session_run(s, single_bytes(count)).outcomes.len() == count,
        session_run(s, single_bytes(count)).outcomes[index] != nothing_read(),
    decreases count,
{
    let sizes = single_bytes(count);
    let step = session_read(s, 1);
    let rest = session_run(step.next, sizes.skip(1));
    assert(sizes[0] == 1);
    assert(sizes.skip(1) =~= single_bytes((count - 1) as nat));
    lemma_bytes_in_order(step.next, sizes.skip(1));
    lemma_first_read_of_loud(s);
    if step.outcome != nothing_read() {
        0
    } else {
        let later = lemma_loud_within(step.next, (count - 1) as nat);
        assert(session_run(s, sizes).outcomes[later + 1] == rest.outcomes[later]);
        later + 1
    }
}

/// The first read of one byte from a session that is not silent gives bytes
/// or a failure, or else leaves a session that is not silent and has a
/// shorter script.
proof fn lemma_first_read_of_loud(s: Session)
    requires
        !silent(s),
    ensures
        session_read(s, 1).outcome != nothing_read() || (!silent(session_read(s, 1).next)
            && session_read(s, 1).next.script.len() < s.script.len()),
    decreases s.script.len(),
{
    if pends(s, 1) {
        lemma_first_read_of_loud(Session { reader: s.reader, script: s.script.skip(1) });
    } else {
        let step = session_poll(s, 1);
        if needs_pull(s.reader.retained, 1) {
            match next_event(s) {
                PullEvent::Chunk(bytes) => {
                    if bytes.len() > 0 {
                        assert(served(bytes, 1).len() > 0);
                    } else {
                        assert(kept(bytes, 1) =~= Seq::<u8>::empty());
                    }
                },
                _ => {},
            }
        } else {
            assert(served(s.reader.retained, 1).len() > 0);
        }
    }
}

/// The session with the pending polls left out of its script.
pub open spec fn without_pending(s: Session) -> Session {
    Session { reader: s.reader, script: strip_pending(s.script) }
}

/// A read driven until it is ready does not depend on how often the stream
/// was pending: it ends as the read of the session without the pending
/// polls does, and leaves what that read leaves.
pub proof fn lemma_read_ignores_pending(s: Session, capacity: nat)
    ensures
        session_read(s, capacity).outcome == session_read(without_pending(s), capacity).outcome,
        without_pending(session_read(s, capacity).next) == without_pending(
            session_read(without_pending(s), capacity).next,
        ),
    decreases s.script.len(),
{
    let plain = without_pending(s);
    lemma_strip_is_idempotent(s.script);
    if pends(s, capacity) {
        let retry = Session { reader: s.reader, script: s.script.skip(1) };
        lemma_read_ignores_pending(retry, capacity);
        assert(without_pending(retry) == plain);
    } else {
        lemma_strip_has_no_pending(s.script);
        assert(!pends(plain, capacity));
        if needs_pull(s.reader.retained, capacity) && !s.reader.exhausted && s.script.len() > 0 {
            assert(strip_pending(s.script).skip(1) =~= strip_pending(s.script.skip(1)));
            lemma_strip_is_idempotent(s.script.skip(1));
        }
    }
}

/// What is left of a script without its pending polls holds no pending poll.
pub proof fn lemma_strip_has_no_pending(script: Seq<PullEvent>)
    ensures
        forall|i: int|
            0 <= i < strip_pending(script).len() ==> !(#[trigger] strip_pending(script)[i]
                is Pending),
    decreases script.len(),
{
    if script.len() > 0 {
        lemma_strip_has_no_pending(script.skip(1));
    }
}

/// Leaving the pending polls out twice is leaving them out once.
pub proof fn lemma_strip_is_idempotent(script: Seq<PullEvent>)
    ensures
        strip_pending(strip_pending(script)) == strip_pending(script),
    decreases script.len(),
{
    if script.len() > 0 {
        lemma_strip_is_idempotent(script.skip(1));
        if !(script[0] is Pending) {
            let stripped = strip_pending(script);
            assert(stripped.skip(1) =~= strip_pending(script.skip(1)));
            assert(strip_pending(stripped) =~= seq![script[0]] + strip_pending(stripped.skip(1)));
        }
    }
}

/// Two sessions whose readers are in the same state and whose streams
/// produce the same, pending polls aside, give the same through every
/// sequence of reads.
pub proof fn lemma_runs_ignore_pending(a: Session, b: Session, sizes: Seq<nat>)
    requires
        without_pending(a) == without_pending(b),
    ensures
        session_run(a, sizes).outcomes == session_run(b, sizes).outcomes,
        without_pending(session_run(a, sizes).last) == without_pending(session_run(b, sizes).last),
    decreases sizes.len(),
{
    if sizes.len() > 0 {
        lemma_read_ignores_pending(a, sizes[0]);
        lemma_read_ignores_pending(b, sizes[0]);
        lemma_runs_ignore_pending(
            session_read(a, sizes[0]).next,
            session_read(b, sizes[0]).next,
            sizes.skip(1),
        );
    }
}

/// The blocking reader and the non-blocking reader agree. Each of them,
/// the one inside a blocking read and the other under a task that awaits
/// it, makes read attempts until one is ready, and the two may find their
/// streams pending at different polls. For the same chunks and failures and
/// the same sizes of buffers, they hand out the same bytes and the same
/// failures, read for read, and retain the same bytes after.
pub proof fn lemma_blocking_and_cooperative_agree(
    blocking: Session,
    cooperative: Session,
    sizes: Seq<nat>,
)
    requires
        blocking.reader == cooperative.reader,
        strip_pending(blocking.script) == strip_pending(cooperative.script),
    ensures
        session_run(blocking, sizes).outcomes == session_run(cooperative, sizes).outcomes,
        session_run(blocking, sizes).last.reader == session_run(cooperative, sizes).last.reader,
{
    lemma_runs_ignore_pending(blocking, cooperative, sizes);
}

} // verus!
