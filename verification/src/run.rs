//! The course of a run: which action follows which, for every report that
//! the caller may make.

use vstd::prelude::*;

use crate::builder::BuilderView;
use crate::index::{index_content, index_file_name};
use crate::index::{lemma_index_ignores_itself, lemma_index_ignores_listing_order};
use crate::names::joined;
use crate::steps::{ActionView, BuildErrorView, ErrorKind, EventView};

verus! {

/// The error of a run on a builder without input files.
pub open spec fn no_input_error() -> BuildErrorView {
    BuildErrorView { kind: ErrorKind::NoInput, message: "No files specified for generation"@ }
}

/// The error of a run whose compiler is not of major version 3.
pub open spec fn wrong_version_error() -> BuildErrorView {
    BuildErrorView {
        kind: ErrorKind::WrongCompilerVersion,
        message: "The protobuf compiler is not of major version 3"@,
    }
}

/// The error of a run whose caller reported something out of turn.
pub open spec fn unexpected_event_error() -> BuildErrorView {
    BuildErrorView {
        kind: ErrorKind::UnexpectedEvent,
        message: "The event does not answer the pending action"@,
    }
}

/// The error that ends a run when the action `pending` has failed for the
/// reason `message`. The code generator's reason is passed on behind a fixed
/// introduction, any other as it is.
pub open spec fn failure_of(pending: ActionView, message: Seq<char>) -> BuildErrorView {
    match pending {
        ActionView::LocateCompiler => BuildErrorView { kind: ErrorKind::CompilerNotFound, message },
        ActionView::ReadCompilerVersion { .. } => BuildErrorView {
            kind: ErrorKind::CompilerVersionUnreadable,
            message,
        },
        ActionView::Compile { .. } => BuildErrorView {
            kind: ErrorKind::Generation,
            message: "Failed to compile protobuf and grpc files: "@ + message,
        },
        _ => BuildErrorView { kind: ErrorKind::Filesystem, message },
    }
}

/// The action that gives up a run with `error`.
pub open spec fn abort(error: BuildErrorView) -> ActionView {
    ActionView::Abort { error }
}

/// The first of the actions that make the output directory ready, once it
/// is known whether the directory exists: one that exists is removed first,
/// so that nothing of an earlier run is left in it.
pub open spec fn out_dir_preparation(cfg: BuilderView, exists: bool) -> ActionView {
    if exists {
        ActionView::RemoveOutDir { path: cfg.out_dir }
    } else {
        ActionView::CreateOutDir { path: cfg.out_dir }
    }
}

/// The request to the code generator: the builder's files, its one include
/// directory and its output directory, with the compiler at `compiler`.
pub open spec fn generation(cfg: BuilderView, compiler: Seq<char>) -> ActionView {
    ActionView::Compile {
        compiler,
        inputs: cfg.files,
        includes: seq![cfg.include_dir],
        out_dir: cfg.out_dir,
    }
}

/// What follows a report on the compiler's version: generation with that
/// compiler if its major version is 3, the end of the run if it is not.
pub open spec fn version_gate(
    cfg: BuilderView,
    compiler: Seq<char>,
    major_is_three: bool,
) -> ActionView {
    if major_is_three {
        generation(cfg, compiler)
    } else {
        abort(wrong_version_error())
    }
}

/// The writing of the index file of an output directory that lists
/// `listing`.
pub open spec fn index_writing(cfg: BuilderView, listing: Seq<Seq<char>>) -> ActionView {
    ActionView::WriteIndex {
        path: joined(cfg.out_dir, index_file_name()),
        content: index_content(listing),
    }
}

/// The action that a run begins with: with no input files it is given up at
/// once; else the output directory is probed.
pub open spec fn first_action(cfg: BuilderView) -> ActionView {
    if cfg.files.len() == 0 {
        abort(no_input_error())
    } else {
        ActionView::ProbeOutDir { path: cfg.out_dir }
    }
}

/// The action that follows `pending` once the caller has reported `event`.
///
/// A run that has ended stays as it is. A failure ends the run with the
/// error of the action that failed. A report that does not answer the
/// pending action ends it too. Else the run goes on to its next action.
pub open spec fn next_action(cfg: BuilderView, pending: ActionView, event: EventView) -> ActionView {
    match (pending, event) {
        (ActionView::Finish, _) => pending,
        (ActionView::Abort { .. }, _) => pending,
        (_, EventView::Failed { message }) => abort(failure_of(pending, message)),
        (ActionView::ProbeOutDir { .. }, EventView::OutDirProbed { exists }) => out_dir_preparation(
            cfg,
            exists,
        ),
        (ActionView::RemoveOutDir { .. }, EventView::Completed) => ActionView::CreateOutDir {
            path: cfg.out_dir,
        },
        (ActionView::CreateOutDir { .. }, EventView::Completed) => ActionView::LocateCompiler,
        (
            ActionView::LocateCompiler,
            EventView::CompilerLocated { path },
        ) => ActionView::ReadCompilerVersion { compiler: path },
        (
            ActionView::ReadCompilerVersion { compiler },
            EventView::VersionRead { major_is_three },
        ) => version_gate(cfg, compiler, major_is_three),
        (ActionView::Compile { .. }, EventView::Completed) => ActionView::ListOutDir {
            path: cfg.out_dir,
        },
        (ActionView::ListOutDir { .. }, EventView::OutputListed { names }) => index_writing(
            cfg,
            names,
        ),
        (ActionView::WriteIndex { .. }, EventView::Completed) => ActionView::Finish,
        _ => abort(unexpected_event_error()),
    }
}

/// The action that is pending once the caller has reported `events`, one
/// after the other, each in answer to the action pending before it.
pub open spec fn pending_after(cfg: BuilderView, events: Seq<EventView>) -> ActionView
    decreases events.len(),
{
    if events.len() == 0 {
        first_action(cfg)
    } else {
        next_action(cfg, pending_after(cfg, events.drop_last()), events.last())
    }
}

/// How far a run has come when `action` is pending. The actions of a run
/// follow one another in this order.
pub open spec fn stage(action: ActionView) -> nat {
    match action {
        ActionView::ProbeOutDir { .. } => 0,
        ActionView::RemoveOutDir { .. } => 1,
        ActionView::CreateOutDir { .. } => 2,
        ActionView::LocateCompiler => 3,
        ActionView::ReadCompilerVersion { .. } => 4,
        ActionView::Compile { .. } => 5,
        ActionView::ListOutDir { .. } => 6,
        ActionView::WriteIndex { .. } => 7,
        ActionView::Finish => 8,
        ActionView::Abort { .. } => 8,
    }
}

/// The actions of a run that succeeds, from the first to the last, where
/// the output directory existed or not, the compiler was located at
/// `compiler`, and the output directory listed `listing` after generation.
pub open spec fn successful_course(
    cfg: BuilderView,
    existed: bool,
    compiler: Seq<char>,
    listing: Seq<Seq<char>>,
) -> Seq<ActionView> {
    let probe = seq![ActionView::ProbeOutDir { path: cfg.out_dir }];
    let removal = if existed {
        seq![ActionView::RemoveOutDir { path: cfg.out_dir }]
    } else {
        Seq::empty()
    };
    probe + removal + seq![
        ActionView::CreateOutDir { path: cfg.out_dir },
        ActionView::LocateCompiler,
        ActionView::ReadCompilerVersion { compiler },
        generation(cfg, compiler),
        ActionView::ListOutDir { path: cfg.out_dir },
        index_writing(cfg, listing),
        ActionView::Finish,
    ]
}

/// Each report moves a run by one action.
pub proof fn lemma_pending_after_step(cfg: BuilderView, events: Seq<EventView>, k: int)
    requires
        0 <= k < events.len(),
    ensures
        pending_after(cfg, events.take(k + 1)) == next_action(
            cfg,
            pending_after(cfg, events.take(k)),
            events[k],
        ),
{
    assert(events.take(k + 1).drop_last() =~= events.take(k));
}

/// A run never goes back: whatever the caller reports, the next action is
/// no earlier in the order of a run than the one before it.
pub proof fn lemma_next_action_is_later(cfg: BuilderView, pending: ActionView, event: EventView)
    ensures
        stage(pending) <= stage(next_action(cfg, pending, event)),
        !pending.is_terminal() ==> stage(pending) < stage(next_action(cfg, pending, event)),
{
}

/// A run that has ended stays ended, with the same outcome, whatever the
/// caller reports afterwards.
pub proof fn lemma_end_is_final(cfg: BuilderView, events: Seq<EventView>, more: Seq<EventView>)
    requires
        pending_after(cfg, events).is_terminal(),
    ensures
        pending_after(cfg, events + more) == pending_after(cfg, events),
    decreases more.len(),
{
    if more.len() == 0 {
        assert(events + more =~= events);
    } else {
        lemma_end_is_final(cfg, events, more.drop_last());
        assert((events + more).drop_last() =~= events + more.drop_last());
    }
}

/// The actions of a run come in the order of [`stage`]: what was pending
/// after the first `k` reports is no later than what is pending after all.
pub proof fn lemma_run_never_goes_back(cfg: BuilderView, events: Seq<EventView>, k: int)
    requires
        0 <= k <= events.len(),
    ensures
        stage(pending_after(cfg, events.take(k))) <= stage(pending_after(cfg, events)),
    decreases events.len() - k,
{
    if k == events.len() {
        assert(events.take(k) =~= events);
    } else {
        lemma_pending_after_step(cfg, events, k);
        lemma_next_action_is_later(cfg, pending_after(cfg, events.take(k)), events[k]);
        lemma_run_never_goes_back(cfg, events, k + 1);
    }
}

/// A run on a builder without input files is given up before anything is
/// touched: whatever the caller reports, no action but giving up is ever
/// pending.
pub proof fn lemma_no_input_never_acts(cfg: BuilderView, events: Seq<EventView>)
    requires
        cfg.files.len() == 0,
    ensures
        pending_after(cfg, events) == abort(no_input_error()),
        !pending_after(cfg, events).touches_filesystem(),
    decreases events.len(),
{
    if events.len() > 0 {
        lemma_no_input_never_acts(cfg, events.drop_last());
    }
}

/// The code generator runs only on the word of a compiler of major version
/// 3: generation is pending only right after the compiler was asked for its
/// version and the caller reported major version 3.
pub proof fn lemma_generation_needs_version_three(cfg: BuilderView, events: Seq<EventView>)
    requires
        pending_after(cfg, events).is_generation(),
    ensures
        events.len() > 0,
        pending_after(cfg, events.drop_last()) is ReadCompilerVersion,
        events.last() == (EventView::VersionRead { major_is_three: true }),
        cfg.files.len() > 0,
{
    if cfg.files.len() == 0 {
        lemma_no_input_never_acts(cfg, events);
    }
}

/// A compiler of another major version than 3 ends the run before any
/// generation: when the compiler is asked for its version and the caller
/// reports one that is not 3, the run is given up for that reason; the code
/// generator has not been run before, and is never run after, whatever the
/// caller reports.
pub proof fn lemma_wrong_version_stops_run(
    cfg: BuilderView,
    events: Seq<EventView>,
    more: Seq<EventView>,
)
    requires
        pending_after(cfg, events) is ReadCompilerVersion,
    ensures
        pending_after(cfg, events.push(EventView::VersionRead { major_is_three: false }) + more)
            == abort(wrong_version_error()),
        forall|k: int|
            0 <= k <= events.len() ==> !(#[trigger] pending_after(
                cfg,
                events.take(k),
            )).is_generation(),
{
    let answered = events.push(EventView::VersionRead { major_is_three: false });
    assert(answered.drop_last() =~= events);
    lemma_end_is_final(cfg, answered, more);
    assert forall|k: int| 0 <= k <= events.len() implies !(#[trigger] pending_after(
        cfg,
        events.take(k),
    )).is_generation() by {
        lemma_run_never_goes_back(cfg, events, k);
    }
}

/// Two runs on the same builder write the same index file if their output
/// directories list the same names, in whatever order; and a listing that
/// already holds the index file changes nothing.
pub proof fn lemma_rerun_writes_same_index(
    cfg: BuilderView,
    first: Seq<Seq<char>>,
    second: Seq<Seq<char>>,
)
    requires
        first.to_multiset() == second.to_multiset(),
    ensures
        index_writing(cfg, second) == index_writing(cfg, first),
        index_writing(cfg, second.push(index_file_name())) == index_writing(cfg, first),
{
    lemma_index_ignores_listing_order(first, second);
    lemma_index_ignores_itself(second);
}

/// A run that had ended after the first `k` reports has the same outcome
/// after all of them.
proof fn lemma_ended_early(cfg: BuilderView, events: Seq<EventView>, k: int)
    requires
        0 <= k <= events.len(),
        pending_after(cfg, events.take(k)).is_terminal(),
    ensures
        pending_after(cfg, events) == pending_after(cfg, events.take(k)),
{
    lemma_end_is_final(cfg, events.take(k), events.skip(k));
    assert(events.take(k) + events.skip(k) =~= events);
}

/// In a run that succeeds, an action that does not end the run is followed
/// by one that does not give it up.
proof fn lemma_successful_run_step(cfg: BuilderView, events: Seq<EventView>, k: int)
    requires
        pending_after(cfg, events) is Finish,
        0 <= k <= events.len(),
        !pending_after(cfg, events.take(k)).is_terminal(),
    ensures
        k < events.len(),
        pending_after(cfg, events.take(k + 1)) == next_action(
            cfg,
            pending_after(cfg, events.take(k)),
            events[k],
        ),
        !(pending_after(cfg, events.take(k + 1)) is Abort),
{
    if k == events.len() {
        assert(events.take(k) =~= events);
    } else {
        lemma_pending_after_step(cfg, events, k);
        if pending_after(cfg, events.take(k + 1)) is Abort {
            lemma_ended_early(cfg, events, k + 1);
        }
    }
}

/// Every run that succeeds takes the same course: the output directory is
/// probed; if it exists it is removed; it is created; the compiler is
/// located and asked for its version; the code generator runs on the
/// builder's files into the output directory; the directory is listed; the
/// index of that listing is written; and the run is finished. So a directory
/// that existed is emptied before anything is generated into it, and the
/// index is written once, after generation.
pub proof fn lemma_successful_run_course(cfg: BuilderView, events: Seq<EventView>)
    requires
        pending_after(cfg, events) is Finish,
    ensures
        events.len() >= 7,
        events[0] is OutDirProbed,
        ({
            let existed = events[0]->OutDirProbed_exists;
            let at: int = if existed { 1 } else { 0 };
            &&& events.len() >= 7 + at
            &&& events[2 + at] is CompilerLocated
            &&& events[5 + at] is OutputListed
            &&& forall|k: int|
                0 <= k < 8 + at ==> #[trigger] pending_after(cfg, events.take(k))
                    == successful_course(
                    cfg,
                    existed,
                    events[2 + at]->CompilerLocated_path,
                    events[5 + at]->OutputListed_names,
                )[k]
        }),
{
    assert(events.take(0) =~= Seq::<EventView>::empty());
    if first_action(cfg) is Abort {
        lemma_ended_early(cfg, events, 0);
    }
    lemma_successful_run_step(cfg, events, 0);
    let existed = events[0]->OutDirProbed_exists;
    let at: int = if existed { 1 } else { 0 };
    if existed {
        lemma_successful_run_step(cfg, events, 1);
    }
    lemma_successful_run_step(cfg, events, 1 + at);
    lemma_successful_run_step(cfg, events, 2 + at);
    lemma_successful_run_step(cfg, events, 3 + at);
    lemma_successful_run_step(cfg, events, 4 + at);
    lemma_successful_run_step(cfg, events, 5 + at);
    lemma_successful_run_step(cfg, events, 6 + at);
}

} // verus!
