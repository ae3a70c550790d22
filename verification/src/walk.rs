//! The walk as mathematics: the states the engine goes through, the
//! operation each state waits for, and the state that follows each answer.
//!
//! The walk visits a directory tree depth first, in listing order. What is
//! still to be visited lies on a stack of tasks: when a directory has been
//! listed its entries go on top, the first entry topmost, so that a
//! directory's subtree is finished before its next sibling is looked at.

use vstd::prelude::*;
use crate::objects::{file_kind, folder_kind, mode_of, DirsyncView, Entry, SyncMode};
use crate::utils::{child, joined, under};

verus! {

/// Which way entries are carried.
#[derive(Clone, Copy, Debug, PartialEq, Eq, Structural)]
pub enum Direction {
    /// Remote to local: driven by the remote listing.
    Pull,
    /// Local to remote: driven by the local listing.
    Push,
}

/// What is done with an entry once it is known whether the far side has
/// it.
#[derive(Clone, Copy, Debug, PartialEq, Eq, Structural)]
pub enum Op {
    /// It is there already: nothing is touched.
    Keep,
    /// A directory that is missing: it is created.
    Create,
    /// A file that is missing: it is transferred.
    Transfer,
}

/// How the work on a directive ended.
#[derive(Clone, Copy, Debug, PartialEq, Eq, Structural)]
pub enum Outcome {
    /// Every phase that the mode asks for has run.
    Finished,
    /// The remote root is a file: nothing was done.
    FileGuard,
    /// The properties of the remote root could not be had.
    StatFailed,
    /// An answer did not fit the operation that was asked for.
    Aborted,
}

/// The tally of a run: how many entries were left alone, created,
/// transferred, and how many operations failed. Each count stops at the
/// largest number it can hold.
#[derive(Clone, Copy, Debug, PartialEq, Eq, Structural)]
pub struct Report {
    pub kept: u64,
    pub created: u64,
    pub transferred: u64,
    pub failed: u64,
}

/// True of a run that counts as failed: one that did not get as far as
/// its phases, or in which an operation failed. A remote root that is a
/// file is turned down and is no failure.
pub open spec fn run_failed(outcome: Outcome, report: Report) -> bool {
    outcome == Outcome::StatFailed || outcome == Outcome::Aborted || report.failed > 0
}

/// One more than `count`, or `count` where it cannot grow.
pub open spec fn bumped(count: u64) -> u64 {
    if count < u64::MAX {
        (count + 1) as u64
    } else {
        count
    }
}

/// An entry still to be visited: the virtual path of its directory, its
/// name, and whether it is a directory, as far as that is known.
pub struct TaskView {
    pub dir: Seq<char>,
    pub name: Seq<char>,
    pub folder: Option<bool>,
}

/// What the engine is waiting for.
pub enum StageView {
    /// The properties of the remote root.
    Stat,
    /// The entries of the directory at the virtual path `dir`, on the side
    /// that drives the walk.
    List { dir: Seq<char> },
    /// Whether the local entry is a directory.
    IsDir { task: TaskView },
    /// Whether the far side has the entry.
    Exists { task: TaskView },
    /// The end of what is done with the entry.
    Apply { task: TaskView, op: Op },
    /// Nothing: the work has ended.
    Done { outcome: Outcome },
}

/// The state of the engine.
pub struct State {
    pub local_root: Seq<char>,
    pub remote_root: Seq<char>,
    pub mode: Option<SyncMode>,
    pub direction: Direction,
    pub stage: StageView,
    pub stack: Seq<TaskView>,
    pub report: Report,
}

/// What came of the operation that the engine asked for.
pub enum EventView {
    /// The kind of the remote root.
    Properties { kind: Seq<char> },
    /// The entries of a remote directory.
    Listing { entries: Seq<Entry> },
    /// The names in a local directory.
    Names { names: Seq<Seq<char>> },
    /// The answer to a yes-or-no question.
    Flag { yes: bool },
    /// The operation was carried out.
    Done,
    /// The operation failed.
    Failed,
}

/// The operation that the engine asks for.
pub enum ActionView {
    /// Ask the store for the properties of `remote`.
    Stat { remote: Seq<char> },
    /// Ask the store for the entries of the directory `remote`.
    ListRemote { remote: Seq<char> },
    /// See whether `local` exists.
    LocalExists { local: Seq<char> },
    /// Create the directory `local`.
    CreateLocalDir { local: Seq<char> },
    /// Create the file `local` and fill it with the bytes of `remote`.
    Download { remote: Seq<char>, local: Seq<char> },
    /// Read the names in the directory `local`.
    ListLocal { local: Seq<char> },
    /// See whether `local` is a directory.
    LocalIsDir { local: Seq<char> },
    /// Ask the store whether `remote` exists.
    RemoteExists { remote: Seq<char> },
    /// Have the store create the folder `remote`.
    CreateRemoteFolder { remote: Seq<char> },
    /// Declare `remote` with the size of `local` and send the file up in
    /// chunks.
    Upload { local: Seq<char>, remote: Seq<char> },
    /// Leave `path` as it is. Nothing is to be done.
    Keep { path: Seq<char> },
    /// Stop: the work has ended.
    Finish { outcome: Outcome },
}

/// The local path of a task's entry.
pub open spec fn local_child(state: State, task: TaskView) -> Seq<char> {
    child(under(state.local_root, task.dir), task.name)
}

/// The remote path of a task's entry.
pub open spec fn remote_child(state: State, task: TaskView) -> Seq<char> {
    child(under(state.remote_root, task.dir), task.name)
}

/// The path of a task's entry on the side that entries are carried to.
pub open spec fn far_child(state: State, task: TaskView) -> Seq<char> {
    match state.direction {
        Direction::Pull => local_child(state, task),
        Direction::Push => remote_child(state, task),
    }
}

/// True when the task's entry is known to be a directory.
pub open spec fn is_folder(task: TaskView) -> bool {
    task.folder == Some(true)
}

/// The tasks for the entries of a remote directory, the first entry last,
/// which is topmost on the stack.
pub open spec fn listed_tasks(dir: Seq<char>, entries: Seq<Entry>) -> Seq<TaskView> {
    Seq::new(
        entries.len(),
        |i: int|
            TaskView {
                dir,
                name: entries[entries.len() - 1 - i].name,
                folder: Some(entries[entries.len() - 1 - i].kind == folder_kind()),
            },
    )
}

/// The tasks for the names of a local directory, the first name last,
/// which is topmost on the stack. Whether a name is a directory is not
/// known yet.
pub open spec fn named_tasks(dir: Seq<char>, names: Seq<Seq<char>>) -> Seq<TaskView> {
    Seq::new(
        names.len(),
        |i: int| TaskView { dir, name: names[names.len() - 1 - i], folder: None },
    )
}

/// The state before anything was asked: the properties of the remote root
/// come first.
pub open spec fn initial(dir: DirsyncView) -> State {
    State {
        local_root: dir.local_path,
        remote_root: dir.remote_path,
        mode: mode_of(dir.sync_mode),
        direction: Direction::Pull,
        stage: StageView::Stat,
        stack: Seq::empty(),
        report: Report { kept: 0, created: 0, transferred: 0, failed: 0 },
    }
}

/// The state with the work ended.
pub open spec fn ended(state: State, outcome: Outcome) -> State {
    State { stage: StageView::Done { outcome }, ..state }
}

/// The state with one more failure counted.
pub open spec fn with_failure(state: State) -> State {
    State { report: Report { failed: bumped(state.report.failed), ..state.report }, ..state }
}

/// The state with one more entry counted under what was done with it.
pub open spec fn with_success(state: State, op: Op) -> State {
    let report = match op {
        Op::Keep => Report { kept: bumped(state.report.kept), ..state.report },
        Op::Create => Report { created: bumped(state.report.created), ..state.report },
        Op::Transfer => Report { transferred: bumped(state.report.transferred), ..state.report },
    };
    State { report, ..state }
}

/// The state once the remote root is known to be a directory: the first
/// phase that the mode asks for starts with the listing of the root. A
/// mode that is none of the three asks for no phase.
pub open spec fn begun(state: State) -> State {
    match state.mode {
        Some(SyncMode::Get) | Some(SyncMode::Bidirectional) => State {
            direction: Direction::Pull,
            stage: StageView::List { dir: Seq::empty() },
            ..state
        },
        Some(SyncMode::Send) => State {
            direction: Direction::Push,
            stage: StageView::List { dir: Seq::empty() },
            ..state
        },
        None => ended(state, Outcome::Finished),
    }
}

/// The state once a phase has nothing left to visit: after the pull of a
/// bidirectional directive the push starts; otherwise the work has ended.
pub open spec fn phase_over(state: State) -> State {
    if state.direction == Direction::Pull && state.mode == Some(SyncMode::Bidirectional) {
        State {
            direction: Direction::Push,
            stage: StageView::List { dir: Seq::empty() },
            ..state
        }
    } else {
        ended(state, Outcome::Finished)
    }
}

/// The state that turns to the next entry: the topmost task leaves the
/// stack, and the engine asks whether it is a directory where that is not
/// known, else whether the far side has it. With no task left the phase is
/// over.
pub open spec fn proceeded(state: State) -> State {
    if state.stack.len() == 0 {
        phase_over(state)
    } else {
        let task = state.stack.last();
        let stage = if task.folder is None {
            StageView::IsDir { task }
        } else {
            StageView::Exists { task }
        };
        State { stage, stack: state.stack.drop_last(), ..state }
    }
}

/// The state once an entry has been dealt with: a directory is listed
/// next, whatever became of it; after a file the walk turns to the next
/// entry.
pub open spec fn settled(state: State, task: TaskView) -> State {
    if is_folder(task) {
        State { stage: StageView::List { dir: joined(task.dir, task.name) }, ..state }
    } else {
        proceeded(state)
    }
}

/// The operation that a state waits for.
pub open spec fn action(state: State) -> ActionView {
    match state.stage {
        StageView::Stat => ActionView::Stat { remote: state.remote_root },
        StageView::List { dir } => match state.direction {
            Direction::Pull => ActionView::ListRemote { remote: under(state.remote_root, dir) },
            Direction::Push => ActionView::ListLocal { local: under(state.local_root, dir) },
        },
        StageView::IsDir { task } => ActionView::LocalIsDir { local: local_child(state, task) },
        StageView::Exists { task } => match state.direction {
            Direction::Pull => ActionView::LocalExists { local: local_child(state, task) },
            Direction::Push => ActionView::RemoteExists { remote: remote_child(state, task) },
        },
        StageView::Apply { task, op } => match op {
            Op::Keep => ActionView::Keep { path: far_child(state, task) },
            Op::Create => match state.direction {
                Direction::Pull => ActionView::CreateLocalDir { local: local_child(state, task) },
                Direction::Push => ActionView::CreateRemoteFolder {
                    remote: remote_child(state, task),
                },
            },
            Op::Transfer => match state.direction {
                Direction::Pull => ActionView::Download {
                    remote: remote_child(state, task),
                    local: local_child(state, task),
                },
                Direction::Push => ActionView::Upload {
                    local: local_child(state, task),
                    remote: remote_child(state, task),
                },
            },
        },
        StageView::Done { outcome } => ActionView::Finish { outcome },
    }
}

/// The state that follows when the operation asked for came to `event`.
///
/// - The remote root: a file ends the work at once; a failure ends it;
///   anything else starts the first phase.
/// - A listing: its entries go on the stack; a listing that failed is
///   counted and its directory passed over.
/// - Whether an entry is a directory, whether the far side has it: the
///   answer decides what is asked next; a question that failed is counted
///   and the entry passed over.
/// - What was done with an entry: counted as done or as failed; a
///   directory is listed either way.
/// - An answer of the wrong shape ends the work.
pub open spec fn step(state: State, event: EventView) -> State {
    match state.stage {
        StageView::Stat => match event {
            EventView::Properties { kind } => if kind == file_kind() {
                ended(state, Outcome::FileGuard)
            } else {
                begun(state)
            },
            EventView::Failed => ended(state, Outcome::StatFailed),
            _ => ended(state, Outcome::Aborted),
        },
        StageView::List { dir } => match event {
            EventView::Listing { entries } => if state.direction == Direction::Pull {
                proceeded(State { stack: state.stack + listed_tasks(dir, entries), ..state })
            } else {
                ended(state, Outcome::Aborted)
            },
            EventView::Names { names } => if state.direction == Direction::Push {
                proceeded(State { stack: state.stack + named_tasks(dir, names), ..state })
            } else {
                ended(state, Outcome::Aborted)
            },
            EventView::Failed => proceeded(with_failure(state)),
            _ => ended(state, Outcome::Aborted),
        },
        StageView::IsDir { task } => match event {
            EventView::Flag { yes } => State {
                stage: StageView::Exists { task: TaskView { folder: Some(yes), ..task } },
                ..state
            },
            EventView::Failed => proceeded(with_failure(state)),
            _ => ended(state, Outcome::Aborted),
        },
        StageView::Exists { task } => match event {
            EventView::Flag { yes } => {
                let op = if yes {
                    Op::Keep
                } else if is_folder(task) {
                    Op::Create
                } else {
                    Op::Transfer
                };
                State { stage: StageView::Apply { task, op }, ..state }
            },
            EventView::Failed => proceeded(with_failure(state)),
            _ => ended(state, Outcome::Aborted),
        },
        StageView::Apply { task, op } => match event {
            EventView::Done => settled(with_success(state, op), task),
            EventView::Failed => settled(with_failure(state), task),
            _ => ended(state, Outcome::Aborted),
        },
        StageView::Done { outcome } => state,
    }
}

/// The state after a run of answers, from `state` on.
pub open spec fn run(state: State, events: Seq<EventView>) -> State
    decreases events.len(),
{
    if events.len() == 0 {
        state
    } else {
        step(run(state, events.drop_last()), events.last())
    }
}

} // verus!
