//! Whole runs: what holds of the state and of the actions after any sequence
//! of events.

use vstd::prelude::*;
use crate::config::IndexConfigView;
use crate::error::IndexErrorView;
use crate::indexer::{entry_extension, initial_state, step, ActionView, EventView, IndexerState, Phase};

verus! {

/// The state after the events, taken in order from state `s`.
pub open spec fn run(s: IndexerState, config: IndexConfigView, events: Seq<EventView>) -> IndexerState
    decreases events.len(),
{
    if events.len() == 0 {
        s
    } else {
        step(
            run(s, config, events.drop_last()),
            config,
            events.last(),
            entry_extension(events.last()),
        ).0
    }
}

/// The actions that the events drew, one for each event.
pub open spec fn actions(s: IndexerState, config: IndexConfigView, events: Seq<EventView>) -> Seq<
    ActionView,
>
    decreases events.len(),
{
    if events.len() == 0 {
        Seq::empty()
    } else {
        actions(s, config, events.drop_last()).push(
            step(
                run(s, config, events.drop_last()),
                config,
                events.last(),
                entry_extension(events.last()),
            ).1,
        )
    }
}

/// Number of files whose documents were handed out.
pub open spec fn files_added(done: Seq<ActionView>) -> nat
    decreases done.len(),
{
    if done.len() == 0 {
        0
    } else {
        files_added(done.drop_last()) + if done.last() is Add {
            1nat
        } else {
            0nat
        }
    }
}

/// Number of documents that were handed out.
pub open spec fn chunks_added(done: Seq<ActionView>) -> nat
    decreases done.len(),
{
    if done.len() == 0 {
        0
    } else {
        chunks_added(done.drop_last()) + match done.last() {
            ActionView::Add(docs) => docs.len(),
            _ => 0nat,
        }
    }
}

/// Number of times a commit was asked for.
pub open spec fn commits_asked(done: Seq<ActionView>) -> nat
    decreases done.len(),
{
    if done.len() == 0 {
        0
    } else {
        commits_asked(done.drop_last()) + if done.last() is Commit {
            1nat
        } else {
            0nat
        }
    }
}

/// Number of results that were reported.
pub open spec fn results_reported(done: Seq<ActionView>) -> nat
    decreases done.len(),
{
    if done.len() == 0 {
        0
    } else {
        results_reported(done.drop_last()) + if done.last() is Report {
            1nat
        } else {
            0nat
        }
    }
}

/// Two events report the same findings: they are the same but for the time of
/// a file's modification, the time a run took, and the wording of a failure.
pub open spec fn same_findings(a: EventView, b: EventView) -> bool {
    match a {
        EventView::Content { content, .. } => b matches EventView::Content { content: other, .. }
            && other == content,
        EventView::Committed { .. } => b is Committed,
        EventView::OpenFailed(_) => b is OpenFailed,
        EventView::WriteFailed(_) => b is WriteFailed,
        EventView::CommitFailed(_) => b is CommitFailed,
        _ => a == b,
    }
}

/// The counters say what was handed out: `indexed_files` is the number of files
/// whose documents went to the index, `total_chunks` the number of those
/// documents.
pub proof fn lemma_counts_are_what_was_added(
    storage_path: Seq<char>,
    config: IndexConfigView,
    events: Seq<EventView>,
)
    ensures
        run(initial_state(storage_path), config, events).indexed_files == files_added(
            actions(initial_state(storage_path), config, events),
        ),
        run(initial_state(storage_path), config, events).total_chunks == chunks_added(
            actions(initial_state(storage_path), config, events),
        ),
    decreases events.len(),
{
    if events.len() > 0 {
        lemma_counts_are_what_was_added(storage_path, config, events.drop_last());
        let done = actions(initial_state(storage_path), config, events);
        assert(done.drop_last() =~= actions(
            initial_state(storage_path),
            config,
            events.drop_last(),
        ));
    }
}

/// Every file that is indexed gives at least one chunk: only a file that
/// cannot be read gives none, and such a file is not counted.
pub proof fn lemma_every_file_has_a_chunk(
    storage_path: Seq<char>,
    config: IndexConfigView,
    events: Seq<EventView>,
)
    ensures
        run(initial_state(storage_path), config, events).indexed_files <= run(
            initial_state(storage_path),
            config,
            events,
        ).total_chunks,
    decreases events.len(),
{
    if events.len() > 0 {
        lemma_every_file_has_a_chunk(storage_path, config, events.drop_last());
    }
}

/// One commit, and no result without it. Whatever the events, a commit is asked
/// for at most once and not before the traversal has ended; a result is
/// reported at most once, only after the commit was asked for, and exactly in
/// the runs that end as finished.
pub proof fn lemma_commit_once(
    storage_path: Seq<char>,
    config: IndexConfigView,
    events: Seq<EventView>,
)
    ensures
        commits_asked(actions(initial_state(storage_path), config, events)) <= 1,
        results_reported(actions(initial_state(storage_path), config, events)) <= commits_asked(
            actions(initial_state(storage_path), config, events),
        ),
        results_reported(actions(initial_state(storage_path), config, events)) == 1 <==> run(
            initial_state(storage_path),
            config,
            events,
        ).phase is Finished,
        run(initial_state(storage_path), config, events).phase is Opening || run(
            initial_state(storage_path),
            config,
            events,
        ).phase is Traversing ==> commits_asked(
            actions(initial_state(storage_path), config, events),
        ) == 0,
        run(initial_state(storage_path), config, events).phase is Committing || run(
            initial_state(storage_path),
            config,
            events,
        ).phase is Finished ==> commits_asked(
            actions(initial_state(storage_path), config, events),
        ) == 1,
    decreases events.len(),
{
    if events.len() > 0 {
        lemma_commit_once(storage_path, config, events.drop_last());
        let done = actions(initial_state(storage_path), config, events);
        assert(done.drop_last() =~= actions(
            initial_state(storage_path),
            config,
            events.drop_last(),
        ));
    }
}

/// Once the commit was asked for, no file is read and no document is added.
pub proof fn lemma_nothing_added_after_commit(
    storage_path: Seq<char>,
    config: IndexConfigView,
    events: Seq<EventView>,
    next: EventView,
)
    requires
        commits_asked(actions(initial_state(storage_path), config, events)) == 1,
    ensures
        !(step(
            run(initial_state(storage_path), config, events),
            config,
            next,
            entry_extension(next),
        ).1 is Add),
        !(step(
            run(initial_state(storage_path), config, events),
            config,
            next,
            entry_extension(next),
        ).1 is Read),
        !(step(
            run(initial_state(storage_path), config, events),
            config,
            next,
            entry_extension(next),
        ).1 is Commit),
{
    lemma_commit_once(storage_path, config, events);
}

/// A file is waited for only while entries are taken.
pub proof fn lemma_pending_only_while_traversing(
    storage_path: Seq<char>,
    config: IndexConfigView,
    events: Seq<EventView>,
)
    ensures
        run(initial_state(storage_path), config, events).pending is Some ==> run(
            initial_state(storage_path),
            config,
            events,
        ).phase is Traversing,
        run(initial_state(storage_path), config, events).phase is Opening ==> events.len() == 0,
        run(initial_state(storage_path), config, events).storage_path == storage_path,
    decreases events.len(),
{
    if events.len() > 0 {
        lemma_pending_only_while_traversing(storage_path, config, events.drop_last());
    }
}

/// A failed setup ends the run before any entry is taken: the failure answers
/// the first event, and nothing was read or added.
pub proof fn lemma_setup_failure_is_first(
    storage_path: Seq<char>,
    config: IndexConfigView,
    events: Seq<EventView>,
)
    requires
        events.len() > 0,
        actions(initial_state(storage_path), config, events).last() matches ActionView::Abort(
            IndexErrorView::Setup(_),
        ),
    ensures
        events.len() == 1,
        events[0] is OpenFailed,
        run(initial_state(storage_path), config, events).phase is Failed,
{
    lemma_pending_only_while_traversing(storage_path, config, events.drop_last());
    assert(run(initial_state(storage_path), config, events.drop_last()).phase is Opening);
    assert(events[0] == events.last());
}

/// A run that was given up stays so: whatever events follow, it reports no
/// result.
pub proof fn lemma_given_up_stays(
    storage_path: Seq<char>,
    config: IndexConfigView,
    events: Seq<EventView>,
    more: Seq<EventView>,
)
    requires
        run(initial_state(storage_path), config, events).phase is Failed,
    ensures
        run(initial_state(storage_path), config, events + more).phase is Failed,
        results_reported(actions(initial_state(storage_path), config, events + more)) == 0,
    decreases more.len(),
{
    if more.len() == 0 {
        assert(events + more =~= events);
    } else {
        lemma_given_up_stays(storage_path, config, events, more.drop_last());
        assert((events + more).drop_last() =~= events + more.drop_last());
    }
    lemma_commit_once(storage_path, config, events + more);
}

/// Idempotent counts. Two runs under one configuration whose events report the
/// same findings stand in the same phase with the same counts, whatever the
/// files' modification times, the time the runs took, and the place of the
/// index.
pub proof fn lemma_counts_repeat(
    config: IndexConfigView,
    first_path: Seq<char>,
    first: Seq<EventView>,
    second_path: Seq<char>,
    second: Seq<EventView>,
)
    requires
        first.len() == second.len(),
        forall|i: int| 0 <= i < first.len() ==> same_findings(#[trigger] first[i], second[i]),
    ensures
        run(initial_state(first_path), config, first).phase == run(
            initial_state(second_path),
            config,
            second,
        ).phase,
        run(initial_state(first_path), config, first).pending == run(
            initial_state(second_path),
            config,
            second,
        ).pending,
        run(initial_state(first_path), config, first).indexed_files == run(
            initial_state(second_path),
            config,
            second,
        ).indexed_files,
        run(initial_state(first_path), config, first).total_chunks == run(
            initial_state(second_path),
            config,
            second,
        ).total_chunks,
    decreases first.len(),
{
    if first.len() > 0 {
        assert forall|i: int| 0 <= i < first.drop_last().len() implies same_findings(
            #[trigger] first.drop_last()[i],
            second.drop_last()[i],
        ) by {
            assert(same_findings(first[i], second[i]));
        }
        lemma_counts_repeat(config, first_path, first.drop_last(), second_path, second.drop_last());
        assert(same_findings(first[first.len() - 1], second[first.len() - 1]));
    }
}

} // verus!
