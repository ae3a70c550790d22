//! What holds of every run of the engine, whatever answers it is given.

use vstd::prelude::*;
use crate::objects::{file_kind, mode_of, DirsyncView, SyncMode};
use crate::walk::{
    action, bumped, far_child, initial, run, step, ActionView, Direction, EventView, Op,
    Outcome, Report, StageView, State, TaskView,
};

verus! {

/// True of the operations of a pull: listing a remote directory, looking
/// for a local entry, creating a local directory and downloading a file.
pub open spec fn download_side(due: ActionView) -> bool {
    due is ListRemote || due is LocalExists || due is CreateLocalDir || due is Download
}

/// True of the operations of a push: listing a local directory, looking at
/// a local entry, asking the store whether it has an entry, creating a
/// remote folder and uploading a file, which is to declare it and to write
/// its chunks.
pub open spec fn upload_side(due: ActionView) -> bool {
    due is ListLocal || due is LocalIsDir || due is RemoteExists || due is CreateRemoteFolder
        || due is Upload
}

/// True while a phase is running: after the properties of the root have
/// come and before the work has ended.
pub open spec fn walking(state: State) -> bool {
    !(state.stage is Stat) && !(state.stage is Done)
}

/// How far the work has come: before the first phase, pulling, pushing,
/// ended.
pub open spec fn progress(state: State) -> nat {
    if state.stage is Stat {
        0
    } else if state.stage is Done {
        3
    } else if state.direction == Direction::Pull {
        1
    } else {
        2
    }
}

/// What holds of every state that a run reaches. Nothing waits on the
/// stack before the first phase, a phase runs only where the mode asks for
/// it, and during a pull every task knows whether it is a directory.
pub open spec fn sound(state: State) -> bool {
    &&& state.stage is Stat ==> state.stack.len() == 0
    &&& walking(state) ==> match state.direction {
        Direction::Pull => {
            &&& state.mode == Some(SyncMode::Get) || state.mode == Some(SyncMode::Bidirectional)
            &&& !(state.stage is IsDir)
            &&& forall|i: int|
                0 <= i < state.stack.len() ==> (#[trigger] state.stack[i]).folder is Some
        },
        Direction::Push => state.mode == Some(SyncMode::Send) || state.mode == Some(
            SyncMode::Bidirectional,
        ),
    }
}

/// A step keeps a state sound and never goes back: not from pushing to
/// pulling, and not from the end to anything.
pub proof fn lemma_step_sound(state: State, event: EventView)
    requires
        sound(state),
    ensures
        sound(step(state, event)),
        progress(step(state, event)) >= progress(state),
{
    let next = step(state, event);
    if walking(next) && next.direction == Direction::Pull {
        assert forall|i: int| 0 <= i < next.stack.len() implies (#[trigger] next.stack[i]).folder
            is Some by {
            if i < state.stack.len() {
                assert(next.stack[i] == state.stack[i]);
            }
        }
    }
}

/// A run of answers taken in two parts.
pub proof fn lemma_run_split(state: State, first: Seq<EventView>, second: Seq<EventView>)
    ensures
        run(state, first + second) == run(run(state, first), second),
    decreases second.len(),
{
    if second.len() == 0 {
        assert(first + second =~= first);
    } else {
        lemma_run_split(state, first, second.drop_last());
        assert((first + second).drop_last() =~= first + second.drop_last());
        assert((first + second).last() == second.last());
    }
}

/// A run keeps a state sound and never goes back.
pub proof fn lemma_run_sound(state: State, events: Seq<EventView>)
    requires
        sound(state),
    ensures
        sound(run(state, events)),
        progress(run(state, events)) >= progress(state),
    decreases events.len(),
{
    if events.len() > 0 {
        lemma_run_sound(state, events.drop_last());
        lemma_step_sound(run(state, events.drop_last()), events.last());
    }
}

/// Mode isolation. Whatever answers a run is given: with the mode `get` no
/// operation of a push is ever due, with the mode `send` none of a pull,
/// and with a mode that is none of the three neither.
pub proof fn law_mode_isolation(dir: DirsyncView, events: Seq<EventView>)
    ensures
        mode_of(dir.sync_mode) == Some(SyncMode::Get) ==> !upload_side(
            action(run(initial(dir), events)),
        ),
        mode_of(dir.sync_mode) == Some(SyncMode::Send) ==> !download_side(
            action(run(initial(dir), events)),
        ),
        mode_of(dir.sync_mode) is None ==> !upload_side(action(run(initial(dir), events)))
            && !download_side(action(run(initial(dir), events))),
{
    lemma_run_sound(initial(dir), events);
    lemma_mode_kept(initial(dir), events);
}

/// A run changes neither the mode nor the roots.
pub proof fn lemma_mode_kept(state: State, events: Seq<EventView>)
    ensures
        run(state, events).mode == state.mode,
        run(state, events).local_root == state.local_root,
        run(state, events).remote_root == state.remote_root,
    decreases events.len(),
{
    if events.len() > 0 {
        lemma_mode_kept(state, events.drop_last());
    }
}

/// Pull before push. Once an operation of a push has been due, no
/// operation of a pull is due later in the same run: in a bidirectional
/// run the pull is over before the push begins.
pub proof fn law_pull_before_push(
    dir: DirsyncView,
    events: Seq<EventView>,
    earlier: int,
    later: int,
)
    requires
        0 <= earlier <= later <= events.len(),
        upload_side(action(run(initial(dir), events.take(earlier)))),
    ensures
        !download_side(action(run(initial(dir), events.take(later)))),
{
    let first = events.take(earlier);
    let second = events.subrange(earlier, later);
    assert(events.take(later) =~= first + second);
    lemma_run_split(initial(dir), first, second);
    lemma_run_sound(initial(dir), first);
    lemma_run_sound(run(initial(dir), first), second);
}

/// Once the work has ended, no answer changes anything.
pub proof fn lemma_done_stays(state: State, events: Seq<EventView>)
    requires
        state.stage is Done,
    ensures
        run(state, events) == state,
    decreases events.len(),
{
    if events.len() > 0 {
        lemma_done_stays(state, events.drop_last());
    }
}

/// Root guard. The first operation is the request for the properties of
/// the remote root. Where the answer is that the root is a file, the work
/// has ended with that outcome, and whatever further answers are given,
/// the only operation ever due is to stop: nothing is listed, nothing is
/// looked for, nothing is counted.
pub proof fn law_root_guard(dir: DirsyncView, events: Seq<EventView>)
    requires
        events.len() > 0,
        events[0] == (EventView::Properties { kind: file_kind() }),
    ensures
        action(initial(dir)) == (ActionView::Stat { remote: dir.remote_path }),
        action(run(initial(dir), events)) == (ActionView::Finish { outcome: Outcome::FileGuard }),
        run(initial(dir), events).report == initial(dir).report,
{
    let first = events.take(1);
    let rest = events.subrange(1, events.len() as int);
    assert(events =~= first + rest);
    lemma_run_split(initial(dir), first, rest);
    assert(first.drop_last() =~= Seq::<EventView>::empty());
    assert(run(initial(dir), first.drop_last()) == initial(dir));
    assert(run(initial(dir), first) == step(initial(dir), events[0]));
    lemma_done_stays(run(initial(dir), first), rest);
}

/// Skip on existing. Where the far side has the entry, what is due next is
/// to leave it as it is, in either direction and whatever the entry is;
/// once that is acknowledged the entry counts as kept and as nothing else.
pub proof fn law_skip_existing(state: State, task: TaskView)
    requires
        state.stage == (StageView::Exists { task }),
    ensures
        action(step(state, EventView::Flag { yes: true })) == (ActionView::Keep {
            path: far_child(state, task),
        }),
        step(step(state, EventView::Flag { yes: true }), EventView::Done).report == (Report {
            kept: bumped(state.report.kept),
            ..state.report
        }),
{
}

/// True of the operations that change the far side: creating a directory
/// and transferring a file.
pub open spec fn changes_far_side(due: ActionView) -> bool {
    due is CreateLocalDir || due is Download || due is CreateRemoteFolder || due is Upload
}

/// The path on the far side that an operation is about.
pub open spec fn far_path(due: ActionView) -> Seq<char> {
    match due {
        ActionView::LocalExists { local } => local,
        ActionView::CreateLocalDir { local } => local,
        ActionView::Download { remote, local } => local,
        ActionView::RemoteExists { remote } => remote,
        ActionView::CreateRemoteFolder { remote } => remote,
        ActionView::Upload { local, remote } => remote,
        ActionView::Keep { path } => path,
        _ => Seq::empty(),
    }
}

/// Nothing is created or transferred unless it was found missing. From
/// any state and on any answer: where an operation that changes the far
/// side is due next, the engine had asked whether the far side has that
/// very path, and the answer was no.
pub proof fn law_change_only_when_absent(state: State, event: EventView)
    requires
        changes_far_side(action(step(state, event))),
    ensures
        event == (EventView::Flag { yes: false }),
        action(state) is LocalExists || action(state) is RemoteExists,
        far_path(action(state)) == far_path(action(step(state, event))),
{
}

/// Partial-failure containment. Where what was done with an entry failed,
/// the engine goes on exactly as if it had succeeded: the same operation
/// is due next, the same entries wait on the stack. Only the tally
/// differs: one more failure, and no entry counted as done.
pub proof fn law_failure_contained(state: State, task: TaskView, op: Op)
    requires
        state.stage == (StageView::Apply { task, op }),
    ensures
        step(state, EventView::Failed).stage == step(state, EventView::Done).stage,
        step(state, EventView::Failed).stack == step(state, EventView::Done).stack,
        step(state, EventView::Failed).direction == step(state, EventView::Done).direction,
        action(step(state, EventView::Failed)) == action(step(state, EventView::Done)),
        step(state, EventView::Failed).report == (Report {
            failed: bumped(state.report.failed),
            ..state.report
        }),
{
}

/// A question or a listing that failed costs one failure and nothing
/// else: no entry is counted as done, and the work goes on or ends as
/// finished.
pub proof fn law_failure_counted_once(state: State)
    requires
        walking(state),
    ensures
        step(state, EventView::Failed).report == (Report {
            failed: bumped(state.report.failed),
            ..state.report
        }),
        step(state, EventView::Failed).stage matches StageView::Done { outcome } ==> outcome
            == Outcome::Finished,
{
}

/// The points of a bidirectional run at which the remote root and, later,
/// the local root were listed, as far as the run has come.
proof fn lemma_phases_seen(dir: DirsyncView, events: Seq<EventView>, count: nat) -> (seen: (
    int,
    int,
))
    requires
        mode_of(dir.sync_mode) == Some(SyncMode::Bidirectional),
        count <= events.len(),
    ensures
        ({
            let state = run(initial(dir), events.take(count as int));
            let finished = state.stage == (StageView::Done { outcome: Outcome::Finished });
            &&& walking(state) || finished ==> 0 <= seen.0 <= count && action(
                run(initial(dir), events.take(seen.0)),
            ) == (ActionView::ListRemote { remote: dir.remote_path })
            &&& (walking(state) && state.direction == Direction::Push) || finished ==> seen.0
                < seen.1 <= count && action(run(initial(dir), events.take(seen.1)))
                == (ActionView::ListLocal { local: dir.local_path })
        }),
    decreases count,
{
    if count == 0 {
        (0, 0)
    } else {
        let before = lemma_phases_seen(dir, events, (count - 1) as nat);
        let prefix = events.take(count as int);
        assert(prefix.drop_last() =~= events.take(count - 1));
        assert(prefix.last() == events[count - 1]);
        let old_state = run(initial(dir), events.take(count - 1));
        let state = run(initial(dir), prefix);
        assert(state == step(old_state, events[count - 1]));
        lemma_mode_kept(initial(dir), events.take(count - 1));
        if old_state.stage is Stat {
            (count as int, count as int)
        } else if walking(old_state) && old_state.direction == Direction::Pull {
            (before.0, count as int)
        } else {
            before
        }
    }
}

/// Both phases of a bidirectional run. Where a bidirectional run has ended
/// as finished, the remote root was listed at some point, which begins the
/// pull, and the local root was listed at a later point, which begins the
/// push.
pub proof fn law_bidirectional_runs_both(dir: DirsyncView, events: Seq<EventView>) -> (seen: (
    int,
    int,
))
    requires
        mode_of(dir.sync_mode) == Some(SyncMode::Bidirectional),
        run(initial(dir), events).stage == (StageView::Done { outcome: Outcome::Finished }),
    ensures
        0 <= seen.0 < seen.1 <= events.len(),
        action(run(initial(dir), events.take(seen.0))) == (ActionView::ListRemote {
            remote: dir.remote_path,
        }),
        action(run(initial(dir), events.take(seen.1))) == (ActionView::ListLocal {
            local: dir.local_path,
        }),
{
    assert(events.take(events.len() as int) =~= events);
    lemma_phases_seen(dir, events, events.len())
}

} // verus!
