//! Chains of reads, as the readers' contracts describe them, and the
//! sessions that they follow.
//!
//! The contract of a blocking read ties the source after the read to the
//! source before it: the read polled the source until it was not pending,
//! and did nothing else to it. So a chain of reads, each from where the one
//! before left the reader and its source, polls the source in one order and
//! drops nothing between the reads. Here that is made exact: every such
//! chain is the run of a session, and so the laws of sessions hold of it.
//! A read of the non-blocking reader that a task awaits is such a read too.
//!
//! Of a source that is certain of its chunks, the session is known: its
//! script is those chunks. For such sources the laws are stated of the
//! readers themselves: chunk order is preserved, a read gives nothing only
//! at the end, and the two readers agree read for read.

use crate::blocking::driven_on;
use crate::blocking::lemma_pulled_after_is_allowed;
use crate::model::accepted_outcome;
use crate::model::accepted_retained;
use crate::model::needs_pull;
use crate::model::PullEvent;
use crate::model::ReadOutcome;
use crate::model::ReaderState;
use crate::reader::attempt_on;
use crate::laws::all_have_room;
use crate::laws::lemma_all_chunks_delivered;
use crate::laws::lemma_chunk_order_preserved;
use crate::laws::lemma_chunk_run_gives_data;
use crate::laws::lemma_zero_read_ends_run;
use crate::laws::no_empty_chunk;
use crate::laws::nothing_read;
use crate::session::chunk_script;
use crate::session::delivered;
use crate::session::fresh;
use crate::session::outstanding;
use crate::session::next_event;
use crate::session::pends;
use crate::session::session_poll;
use crate::session::session_read;
use crate::session::session_run;
use crate::session::Session;
use crate::session::Step;
use crate::source::certain_chunks;
use crate::source::pull_step;
use crate::source::pulled_after;
use crate::source::source_done;
use crate::source::ChunkSource;
use vstd::prelude::*;

verus! {

/// Whether the sequences describe a chain of reads, each driven until it is
/// ready: the read at `i` has room for `sizes[i]` bytes, takes the source
/// from `sources[i]` to `sources[i + 1]` and the reader from `states[i]` to
/// `states[i + 1]`, and ends with `outcomes[i]`.
pub open spec fn reads_chain(
    sources: Seq<ChunkSource>,
    states: Seq<ReaderState>,
    sizes: Seq<nat>,
    outcomes: Seq<ReadOutcome>,
) -> bool {
    &&& sources.len() == sizes.len() + 1
    &&& states.len() == sizes.len() + 1
    &&& outcomes.len() == sizes.len()
    &&& forall|i: int|
        0 <= i <= sizes.len() ==> (#[trigger] states[i]).exhausted == source_done(sources[i])
    &&& forall|i: int|
        0 <= i < sizes.len() ==> driven_on(
            sources[i],
            states[i],
            #[trigger] sizes[i],
            sources[i + 1],
            states[i + 1],
            outcomes[i],
        )
}

/// A script of `waits` pending polls.
pub open spec fn pending_polls(waits: nat) -> Seq<PullEvent> {
    Seq::new(waits, |i: int| PullEvent::Pending)
}

/// A read that has to pull finds what comes after the pending polls: it ends
/// as the read attempt does that finds `event` first.
pub proof fn lemma_read_skips_pending_polls(
    reader: ReaderState,
    waits: nat,
    event: PullEvent,
    rest: Seq<PullEvent>,
    capacity: nat,
)
    requires
        needs_pull(reader.retained, capacity),
        !reader.exhausted,
        !(event is Pending),
    ensures
        session_read(
            Session { reader, script: pending_polls(waits) + seq![event] + rest },
            capacity,
        ) == session_poll(Session { reader, script: seq![event] + rest }, capacity),
    decreases waits,
{
    let script = pending_polls(waits) + seq![event] + rest;
    let s = Session { reader, script };
    if waits == 0 {
        assert(script =~= seq![event] + rest);
        assert(!pends(s, capacity));
    } else {
        assert(script[0] is Pending);
        assert(pends(s, capacity));
        assert(script.skip(1) =~= pending_polls((waits - 1) as nat) + seq![event] + rest);
        lemma_read_skips_pending_polls(reader, (waits - 1) as nat, event, rest, capacity);
    }
}

/// One read of a chain is the first read of a session: for the script that
/// is left after it, `rest`, there is a script with which the session does
/// what the read did, and leaves `rest`.
pub proof fn lemma_driven_read_follows_a_script(
    before: ChunkSource,
    pre: ReaderState,
    capacity: nat,
    after: ChunkSource,
    post: ReaderState,
    outcome: ReadOutcome,
    rest: Seq<PullEvent>,
) -> (script: Seq<PullEvent>)
    requires
        driven_on(before, pre, capacity, after, post, outcome),
        pre.exhausted == source_done(before),
        post.exhausted == source_done(after),
    ensures
        session_read(Session { reader: pre, script }, capacity) == (Step {
            next: Session { reader: post, script: rest },
            outcome,
        }),
{
    if needs_pull(pre.retained, capacity) {
        let (waits, event) = choose|waits: nat, event: PullEvent|
            {
                &&& #[trigger] pulled_after(before, waits, event, after)
                &&& !(event is Pending)
                &&& post.retained == accepted_retained(event, capacity)
                &&& outcome == accepted_outcome(event, capacity)
            };
        lemma_pulled_after_is_allowed(before, waits, event, after);
        if pre.exhausted {
            let s = Session { reader: pre, script: rest };
            assert(!pends(s, capacity));
            assert(session_poll(s, capacity).next.reader.retained =~= post.retained);
            rest
        } else {
            let script = pending_polls(waits) + seq![event] + rest;
            lemma_read_skips_pending_polls(pre, waits, event, rest, capacity);
            let s = Session { reader: pre, script: seq![event] + rest };
            assert(s.script[0] == event);
            assert(s.script.skip(1) =~= rest);
            assert(session_poll(s, capacity).next.reader.retained =~= post.retained);
            script
        }
    } else {
        let s = Session { reader: pre, script: rest };
        assert(!pends(s, capacity));
        assert(session_poll(s, capacity).next.reader.retained =~= post.retained);
        rest
    }
}

/// Every chain of reads is the run of a session: there is a script, the
/// events that the source yielded to the chain, with which a session that
/// starts in the chain's first state ends each read as the chain does and
/// leaves the reader in the chain's last state. So what the laws say of all
/// sessions, they say of the reads that the readers make.
pub proof fn lemma_reads_follow_a_script(
    sources: Seq<ChunkSource>,
    states: Seq<ReaderState>,
    sizes: Seq<nat>,
    outcomes: Seq<ReadOutcome>,
) -> (script: Seq<PullEvent>)
    requires
        reads_chain(sources, states, sizes, outcomes),
    ensures
        session_run(Session { reader: states[0], script }, sizes).outcomes == outcomes,
        session_run(Session { reader: states[0], script }, sizes).last.reader == states.last(),
    decreases sizes.len(),
{
    if sizes.len() == 0 {
        let script = Seq::<PullEvent>::empty();
        assert(session_run(Session { reader: states[0], script }, sizes).outcomes =~= outcomes);
        script
    } else {
        let later_sources = sources.skip(1);
        let later_states = states.skip(1);
        let later_sizes = sizes.skip(1);
        let later_outcomes = outcomes.skip(1);
        assert forall|i: int| 0 <= i <= later_sizes.len() implies (#[trigger] later_states[i]).exhausted
            == source_done(later_sources[i]) by {
            assert(later_states[i] == states[i + 1]);
            assert(later_sources[i] == sources[i + 1]);
        }
        assert forall|i: int| 0 <= i < later_sizes.len() implies driven_on(
            later_sources[i],
            later_states[i],
            #[trigger] later_sizes[i],
            later_sources[i + 1],
            later_states[i + 1],
            later_outcomes[i],
        ) by {
            assert(later_sizes[i] == sizes[i + 1]);
            assert(later_states[i] == states[i + 1]);
            assert(later_states[i + 1] == states[i + 2]);
            assert(later_sources[i] == sources[i + 1]);
            assert(later_sources[i + 1] == sources[i + 2]);
            assert(later_outcomes[i] == outcomes[i + 1]);
        }
        let rest = lemma_reads_follow_a_script(
            later_sources,
            later_states,
            later_sizes,
            later_outcomes,
        );
        assert(sizes[0] == sizes[0]);
        assert(states[0].exhausted == source_done(sources[0]));
        assert(states[1].exhausted == source_done(sources[1]));
        let script = lemma_driven_read_follows_a_script(
            sources[0],
            states[0],
            sizes[0],
            sources[1],
            states[1],
            outcomes[0],
            rest,
        );
        assert(later_states[0] == states[1]);
        assert(later_states.last() == states.last());
        let run = session_run(Session { reader: states[0], script }, sizes);
        assert(run.outcomes =~= outcomes);
        script
    }
}

/// Whether a read of the non-blocking reader, attempted again each of the
/// `waits` times that it was pending and ready at the next attempt, can take
/// the source from `before` to `after` and the reader from `pre` to `post`,
/// and end with `outcome`. This is the read of a task that awaits it.
pub open spec fn awaited_on(
    before: ChunkSource,
    pre: ReaderState,
    capacity: nat,
    waits: nat,
    after: ChunkSource,
    post: ReaderState,
    outcome: ReadOutcome,
) -> bool
    decreases waits,
{
    if waits == 0 {
        attempt_on(before, pre, capacity, after, post, outcome) && !(outcome is Pending)
    } else {
        exists|between: ChunkSource| #[trigger]
            attempt_on(before, pre, capacity, between, pre, ReadOutcome::Pending) && awaited_on(
                between,
                pre,
                capacity,
                (waits - 1) as nat,
                after,
                post,
                outcome,
            )
    }
}

/// An awaited read of the non-blocking reader is a read driven until it is
/// ready: the two readers make the same reads.
pub proof fn lemma_awaited_read_is_driven(
    before: ChunkSource,
    pre: ReaderState,
    capacity: nat,
    waits: nat,
    after: ChunkSource,
    post: ReaderState,
    outcome: ReadOutcome,
)
    requires
        awaited_on(before, pre, capacity, waits, after, post, outcome),
    ensures
        driven_on(before, pre, capacity, after, post, outcome),
    decreases waits,
{
    if waits == 0 {
        if needs_pull(pre.retained, capacity) {
            let event = choose|event: PullEvent|
                {
                    &&& #[trigger] pull_step(before, event, after)
                    &&& post.retained == accepted_retained(event, capacity)
                    &&& outcome == accepted_outcome(event, capacity)
                };
            assert(outcome == accepted_outcome(event, capacity));
            assert(pulled_after(before, 0, event, after));
        }
    } else {
        let between = choose|between: ChunkSource| #[trigger]
            attempt_on(before, pre, capacity, between, pre, ReadOutcome::Pending) && awaited_on(
                between,
                pre,
                capacity,
                (waits - 1) as nat,
                after,
                post,
                outcome,
            );
        lemma_awaited_read_is_driven(
            between,
            pre,
            capacity,
            (waits - 1) as nat,
            after,
            post,
            outcome,
        );
        assert(needs_pull(pre.retained, capacity));
        let first = choose|event: PullEvent|
            {
                &&& #[trigger] pull_step(before, event, between)
                &&& pre.retained == accepted_retained(event, capacity)
                &&& ReadOutcome::Pending == accepted_outcome(event, capacity)
            };
        assert(ReadOutcome::Pending == accepted_outcome(first, capacity));
        assert(first is Pending);
        assert(pull_step(before, PullEvent::Pending, between));
        let (later, event) = choose|later: nat, event: PullEvent|
            {
                &&& #[trigger] pulled_after(between, later, event, after)
                &&& !(event is Pending)
                &&& post.retained == accepted_retained(event, capacity)
                &&& outcome == accepted_outcome(event, capacity)
            };
        assert(pulled_after(before, later + 1, event, after));
    }
}

/// One read from a source that is certain of its chunks is the first read
/// of the session that has those chunks for its script, and it leaves the
/// source certain of the chunks that are left, which are returned.
pub proof fn lemma_certain_read_follows_its_chunks(
    before: ChunkSource,
    pre: ReaderState,
    capacity: nat,
    after: ChunkSource,
    post: ReaderState,
    outcome: ReadOutcome,
    chunks: Seq<Seq<u8>>,
) -> (left: Seq<Seq<u8>>)
    requires
        driven_on(before, pre, capacity, after, post, outcome),
        pre.exhausted == source_done(before),
        post.exhausted == source_done(after),
        certain_chunks(before) == Some(chunks),
        pre.exhausted ==> chunks.len() == 0,
    ensures
        certain_chunks(after) == Some(left),
        post.exhausted ==> left.len() == 0,
        session_read(Session { reader: pre, script: chunk_script(chunks) }, capacity) == (Step {
            next: Session { reader: post, script: chunk_script(left) },
            outcome,
        }),
{
    let s = Session { reader: pre, script: chunk_script(chunks) };
    if needs_pull(pre.retained, capacity) {
        let (waits, event) = choose|waits: nat, event: PullEvent|
            {
                &&& #[trigger] pulled_after(before, waits, event, after)
                &&& !(event is Pending)
                &&& post.retained == accepted_retained(event, capacity)
                &&& outcome == accepted_outcome(event, capacity)
            };
        // A source that is certain of its chunks is never pending.
        assert(waits == 0) by {
            if waits > 0 {
                let between = choose|between: ChunkSource| #[trigger]
                    pull_step(before, PullEvent::Pending, between) && pulled_after(
                        between,
                        (waits - 1) as nat,
                        event,
                        after,
                    );
                assert(pull_step(before, PullEvent::Pending, between));
            }
        }
        assert(pull_step(before, event, after));
        if chunks.len() > 0 {
            let left = chunks.skip(1);
            assert(s.script[0] == PullEvent::Chunk(chunks[0]));
            assert(!pends(s, capacity));
            assert(next_event(s) == event);
            assert(s.script.skip(1) =~= chunk_script(left));
            assert(session_poll(s, capacity).next.reader.retained =~= post.retained);
            left
        } else {
            assert(s.script =~= Seq::<PullEvent>::empty());
            assert(!pends(s, capacity));
            assert(next_event(s) == event);
            assert(session_poll(s, capacity).next.reader.retained =~= post.retained);
            chunks
        }
    } else {
        assert(!pends(s, capacity));
        assert(session_poll(s, capacity).next.reader.retained =~= post.retained);
        chunks
    }
}

/// A chain of reads from a source that is certain of its chunks is the run
/// of the session that has those chunks for its script: each read ends as
/// the session's read does, and the reader is left as the session leaves it.
pub proof fn lemma_reads_follow_the_chunks(
    sources: Seq<ChunkSource>,
    states: Seq<ReaderState>,
    sizes: Seq<nat>,
    outcomes: Seq<ReadOutcome>,
    chunks: Seq<Seq<u8>>,
)
    requires
        reads_chain(sources, states, sizes, outcomes),
        certain_chunks(sources[0]) == Some(chunks),
        states[0].exhausted ==> chunks.len() == 0,
    ensures
        session_run(Session { reader: states[0], script: chunk_script(chunks) }, sizes).outcomes
            == outcomes,
        session_run(
            Session { reader: states[0], script: chunk_script(chunks) },
            sizes,
        ).last.reader == states.last(),
    decreases sizes.len(),
{
    let start = Session { reader: states[0], script: chunk_script(chunks) };
    if sizes.len() == 0 {
        assert(session_run(start, sizes).outcomes =~= outcomes);
    } else {
        lemma_chain_goes_on(sources, states, sizes, outcomes);
        assert(sizes[0] == sizes[0]);
        assert(states[0].exhausted == source_done(sources[0]));
        assert(states[1].exhausted == source_done(sources[1]));
        let left = lemma_certain_read_follows_its_chunks(
            sources[0],
            states[0],
            sizes[0],
            sources[1],
            states[1],
            outcomes[0],
            chunks,
        );
        lemma_reads_follow_the_chunks(
            sources.skip(1),
            states.skip(1),
            sizes.skip(1),
            outcomes.skip(1),
            left,
        );
        assert(states.skip(1)[0] == states[1]);
        assert(states.skip(1).last() == states.last());
        assert(session_run(start, sizes).outcomes =~= outcomes);
    }
}

/// What is left of a chain of reads after its first read is a chain of
/// reads.
pub proof fn lemma_chain_goes_on(
    sources: Seq<ChunkSource>,
    states: Seq<ReaderState>,
    sizes: Seq<nat>,
    outcomes: Seq<ReadOutcome>,
)
    requires
        reads_chain(sources, states, sizes, outcomes),
        sizes.len() > 0,
    ensures
        reads_chain(sources.skip(1), states.skip(1), sizes.skip(1), outcomes.skip(1)),
        sources.skip(1)[0] == sources[1],
        states.skip(1)[0] == states[1],
{
    let later_sources = sources.skip(1);
    let later_states = states.skip(1);
    let later_sizes = sizes.skip(1);
    let later_outcomes = outcomes.skip(1);
    assert forall|i: int| 0 <= i <= later_sizes.len() implies (#[trigger] later_states[i]).exhausted
        == source_done(later_sources[i]) by {
        assert(later_states[i] == states[i + 1]);
        assert(later_sources[i] == sources[i + 1]);
    }
    assert forall|i: int| 0 <= i < later_sizes.len() implies driven_on(
        later_sources[i],
        later_states[i],
        #[trigger] later_sizes[i],
        later_sources[i + 1],
        later_states[i + 1],
        later_outcomes[i],
    ) by {
        assert(later_sizes[i] == sizes[i + 1]);
        assert(later_states[i] == states[i + 1]);
        assert(later_states[i + 1] == states[i + 2]);
        assert(later_sources[i] == sources[i + 1]);
        assert(later_sources[i + 1] == sources[i + 2]);
        assert(later_outcomes[i] == outcomes[i + 1]);
    }
}

/// The blocking reader and the non-blocking reader agree, read for read:
/// two chains of reads, by whichever reader, from readers in the same state
/// over sources that are certain of the same chunks, with buffers of the
/// same sizes, hand out the same bytes at every read and leave the readers
/// in the same state. A read of the non-blocking reader that a task awaits is
/// a read of such a chain (`lemma_awaited_read_is_driven`), and so is a
/// blocking read for which a runtime was set up and which was not refused.
pub proof fn lemma_readers_agree(
    first_sources: Seq<ChunkSource>,
    first_states: Seq<ReaderState>,
    first_outcomes: Seq<ReadOutcome>,
    second_sources: Seq<ChunkSource>,
    second_states: Seq<ReaderState>,
    second_outcomes: Seq<ReadOutcome>,
    sizes: Seq<nat>,
    chunks: Seq<Seq<u8>>,
)
    requires
        reads_chain(first_sources, first_states, sizes, first_outcomes),
        reads_chain(second_sources, second_states, sizes, second_outcomes),
        certain_chunks(first_sources[0]) == Some(chunks),
        certain_chunks(second_sources[0]) == Some(chunks),
        first_states[0] == second_states[0],
        first_states[0].exhausted ==> chunks.len() == 0,
    ensures
        first_outcomes == second_outcomes,
        first_states.last() == second_states.last(),
{
    lemma_reads_follow_the_chunks(first_sources, first_states, sizes, first_outcomes, chunks);
    lemma_reads_follow_the_chunks(second_sources, second_states, sizes, second_outcomes, chunks);
}

/// Chunk order is preserved by the readers. Take a reader that retains
/// nothing, over a source that is certain of the chunks `chunks`, and any
/// chain of reads from it, with buffers of any sizes. Then:
/// - every read gives data and no failure;
/// - the bytes read so far, in the order of the reads, are a prefix of the
///   chunks' concatenation;
/// - they are all of it once the reads, each with room, are as many as the
///   bytes and the chunks together, and one more.
pub proof fn lemma_reader_preserves_chunk_order(
    sources: Seq<ChunkSource>,
    states: Seq<ReaderState>,
    sizes: Seq<nat>,
    outcomes: Seq<ReadOutcome>,
    chunks: Seq<Seq<u8>>,
)
    requires
        reads_chain(sources, states, sizes, outcomes),
        certain_chunks(sources[0]) == Some(chunks),
        states[0].retained.len() == 0,
        !states[0].exhausted,
    ensures
        forall|i: int| 0 <= i < outcomes.len() ==> (#[trigger] outcomes[i]) is Data,
        delivered(outcomes).is_prefix_of(chunks.flatten()),
        all_have_room(sizes) && sizes.len() >= chunks.flatten().len() + chunks.len() + 1
            ==> delivered(outcomes) == chunks.flatten(),
{
    let start = fresh(chunk_script(chunks));
    assert(states[0].retained =~= Seq::<u8>::empty());
    assert(start == (Session { reader: states[0], script: chunk_script(chunks) }));
    lemma_reads_follow_the_chunks(sources, states, sizes, outcomes, chunks);
    lemma_chunk_run_gives_data(start, sizes);
    lemma_chunk_order_preserved(chunks, sizes);
    let run = session_run(start, sizes);
    assert(delivered(outcomes) =~= (delivered(outcomes) + outstanding(run.last)).take(
        delivered(outcomes).len() as int,
    ));
    if all_have_room(sizes) && sizes.len() >= chunks.flatten().len() + chunks.len() + 1 {
        lemma_all_chunks_delivered(chunks, sizes);
    }
}

/// A read gives nothing only at the end. Take a reader that retains nothing,
/// over a source that is certain of the chunks `chunks`, none of them
/// empty, and a chain of reads from it whose last read has room and gives no
/// bytes. Then the bytes read are all of the chunks' concatenation, wherever
/// the sizes of the buffers cut it.
pub proof fn lemma_reader_gives_nothing_only_at_the_end(
    sources: Seq<ChunkSource>,
    states: Seq<ReaderState>,
    sizes: Seq<nat>,
    outcomes: Seq<ReadOutcome>,
    chunks: Seq<Seq<u8>>,
)
    requires
        reads_chain(sources, states, sizes, outcomes),
        certain_chunks(sources[0]) == Some(chunks),
        states[0].retained.len() == 0,
        !states[0].exhausted,
        forall|j: int| 0 <= j < chunks.len() ==> (#[trigger] chunks[j]).len() > 0,
        sizes.len() > 0,
        sizes.last() > 0,
        outcomes.last() == nothing_read(),
    ensures
        delivered(outcomes) == chunks.flatten(),
{
    let start = fresh(chunk_script(chunks));
    assert(states[0].retained =~= Seq::<u8>::empty());
    assert(start == (Session { reader: states[0], script: chunk_script(chunks) }));
    lemma_reads_follow_the_chunks(sources, states, sizes, outcomes, chunks);
    assert(no_empty_chunk(start.script));
    lemma_zero_read_ends_run(start, sizes);
    lemma_chunk_order_preserved(chunks, sizes);
    let run = session_run(start, sizes);
    assert(delivered(outcomes) + outstanding(run.last) =~= delivered(outcomes));
}

} // verus!
