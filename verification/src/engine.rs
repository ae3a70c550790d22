//! The engine that mirrors one pair of directories.
//!
//! The engine performs nothing itself. It names the operation that is due,
//! the caller carries it out and reports what came of it, and the engine
//! moves on. Every move is the one that [`crate::walk::step`] prescribes.

use vstd::prelude::*;
use vstd::string::StringExecFns;
use crate::objects::{
    is_file_kind, is_folder_kind, parse_mode, Dirsync, FileList, FileProperties, SyncMode,
};
use crate::utils::{child_path, create_path, path_under, texts};
use crate::walk::{
    action, begun, bumped, ended, initial, listed_tasks, local_child, named_tasks, phase_over,
    proceeded, remote_child, run_failed, settled, step, with_failure, with_success, ActionView,
    Direction, EventView, Op, Outcome, Report, StageView, State, TaskView,
};

verus! {

/// An entry still to be visited.
#[derive(Clone, Debug, PartialEq, Eq)]
pub struct Task {
    pub dir: String,
    pub name: String,
    pub folder: Option<bool>,
}

impl View for Task {
    type V = TaskView;

    open spec fn view(&self) -> TaskView {
        TaskView { dir: self.dir@, name: self.name@, folder: self.folder }
    }
}

/// The tasks of a stack as mathematics.
pub open spec fn task_views(tasks: Seq<Task>) -> Seq<TaskView> {
    Seq::new(tasks.len(), |i: int| tasks[i]@)
}

/// What the engine is waiting for.
#[derive(Clone, Debug, PartialEq, Eq)]
pub enum Stage {
    Stat,
    List { dir: String },
    IsDir { task: Task },
    Exists { task: Task },
    Apply { task: Task, op: Op },
    Done { outcome: Outcome },
}

impl View for Stage {
    type V = StageView;

    open spec fn view(&self) -> StageView {
        match self {
            Stage::Stat => StageView::Stat,
            Stage::List { dir } => StageView::List { dir: dir@ },
            Stage::IsDir { task } => StageView::IsDir { task: task@ },
            Stage::Exists { task } => StageView::Exists { task: task@ },
            Stage::Apply { task, op } => StageView::Apply { task: task@, op: *op },
            Stage::Done { outcome } => StageView::Done { outcome: *outcome },
        }
    }
}

/// What came of the operation that the engine asked for.
#[derive(Clone, Debug, PartialEq, Eq)]
pub enum Event {
    /// The properties of the remote root.
    Properties(FileProperties),
    /// The entries of a remote directory.
    Listing(FileList),
    /// The names in a local directory.
    Names(Vec<String>),
    /// The answer to a yes-or-no question.
    Flag(bool),
    /// The operation was carried out.
    Done,
    /// The operation failed.
    Failed,
}

impl View for Event {
    type V = EventView;

    open spec fn view(&self) -> EventView {
        match self {
            Event::Properties(properties) => EventView::Properties { kind: properties.kind@ },
            Event::Listing(list) => EventView::Listing { entries: list@ },
            Event::Names(names) => EventView::Names { names: texts(names@) },
            Event::Flag(yes) => EventView::Flag { yes: *yes },
            Event::Done => EventView::Done,
            Event::Failed => EventView::Failed,
        }
    }
}

/// The operation that the engine asks for. See [`ActionView`] for what
/// each one means.
#[derive(Clone, Debug, PartialEq, Eq)]
pub enum Action {
    Stat { remote: String },
    ListRemote { remote: String },
    LocalExists { local: String },
    CreateLocalDir { local: String },
    Download { remote: String, local: String },
    ListLocal { local: String },
    LocalIsDir { local: String },
    RemoteExists { remote: String },
    CreateRemoteFolder { remote: String },
    Upload { local: String, remote: String },
    Keep { path: String },
    Finish { outcome: Outcome },
}

impl View for Action {
    type V = ActionView;

    open spec fn view(&self) -> ActionView {
        match self {
            Action::Stat { remote } => ActionView::Stat { remote: remote@ },
            Action::ListRemote { remote } => ActionView::ListRemote { remote: remote@ },
            Action::LocalExists { local } => ActionView::LocalExists { local: local@ },
            Action::CreateLocalDir { local } => ActionView::CreateLocalDir { local: local@ },
            Action::Download { remote, local } => ActionView::Download {
                remote: remote@,
                local: local@,
            },
            Action::ListLocal { local } => ActionView::ListLocal { local: local@ },
            Action::LocalIsDir { local } => ActionView::LocalIsDir { local: local@ },
            Action::RemoteExists { remote } => ActionView::RemoteExists { remote: remote@ },
            Action::CreateRemoteFolder { remote } => ActionView::CreateRemoteFolder {
                remote: remote@,
            },
            Action::Upload { local, remote } => ActionView::Upload {
                local: local@,
                remote: remote@,
            },
            Action::Keep { path } => ActionView::Keep { path: path@ },
            Action::Finish { outcome } => ActionView::Finish { outcome: *outcome },
        }
    }
}

impl Outcome {
    /// The outcome in words.
    pub open spec fn spec_message(self) -> Seq<char> {
        match self {
            Outcome::Finished => "sync finished"@,
            Outcome::FileGuard => "cannot sync a file"@,
            Outcome::StatFailed => "cannot read the properties of the remote path"@,
            Outcome::Aborted => "sync aborted: unexpected answer"@,
        }
    }

    /// The outcome in words, as shown to the user.
    pub fn message(self) -> (text: String)
        ensures
            text@ == self.spec_message(),
    {
        match self {
            Outcome::Finished => String::from_str("sync finished"),
            Outcome::FileGuard => String::from_str("cannot sync a file"),
            Outcome::StatFailed => String::from_str(
                "cannot read the properties of the remote path",
            ),
            Outcome::Aborted => String::from_str("sync aborted: unexpected answer"),
        }
    }
}

/// True when a run that ended with `outcome` and `report` counts as
/// failed.
pub fn failed(outcome: Outcome, report: &Report) -> (failed: bool)
    ensures
        failed == run_failed(outcome, *report),
{
    match outcome {
        Outcome::StatFailed => true,
        Outcome::Aborted => true,
        _ => report.failed > 0,
    }
}

/// One more than `count`, or `count` where it cannot grow.
fn bump(count: u64) -> (more: u64)
    ensures
        more == bumped(count),
{
    if count < u64::MAX {
        count + 1
    } else {
        count
    }
}

/// The engine for one directive.
#[derive(Debug)]
pub struct Engine {
    local_root: String,
    remote_root: String,
    mode: Option<SyncMode>,
    direction: Direction,
    stage: Stage,
    stack: Vec<Task>,
    report: Report,
}

impl View for Engine {
    type V = State;

    closed spec fn view(&self) -> State {
        State {
            local_root: self.local_root@,
            remote_root: self.remote_root@,
            mode: self.mode,
            direction: self.direction,
            stage: self.stage@,
            stack: task_views(self.stack@),
            report: self.report,
        }
    }
}

/// The engine for the directive `dir`, before anything was asked.
pub fn sync_files(dir: &Dirsync) -> (engine: Engine)
    ensures
        engine@ == initial(dir@),
{
    let engine = Engine {
        local_root: dir.local_path.clone(),
        remote_root: dir.remote_path.clone(),
        mode: parse_mode(&dir.sync_mode),
        direction: Direction::Pull,
        stage: Stage::Stat,
        stack: Vec::new(),
        report: Report { kept: 0, created: 0, transferred: 0, failed: 0 },
    };
    assert(engine@.stack =~= Seq::<TaskView>::empty());
    engine
}

/// Puts the entries of a remote directory on the stack, the first entry
/// topmost.
fn push_listed(stack: Vec<Task>, dir: &String, entries: &FileList) -> (grown: Vec<Task>)
    ensures
        task_views(grown@) == task_views(stack@) + listed_tasks(dir@, entries@),
{
    let ghost before = task_views(stack@);
    let ghost added = listed_tasks(dir@, entries@);
    let mut grown = stack;
    let mut i: usize = entries.list.len();
    assert(task_views(grown@) =~= before + added.take(0));
    while i > 0
        invariant
            i <= entries.list.len(),
            added == listed_tasks(dir@, entries@),
            task_views(grown@) == before + added.take(entries.list.len() - i),
        decreases i,
    {
        i -= 1;
        let task = Task {
            dir: dir.clone(),
            name: entries.list[i].name.clone(),
            folder: Some(is_folder_kind(&entries.list[i].kind)),
        };
        let ghost shorter = grown@;
        grown.push(task);
        proof {
            let done: int = entries.list.len() - i - 1;
            assert(task@ == added[done]);
            assert(task_views(grown@) =~= task_views(shorter).push(task@));
            assert(added.take(done + 1) =~= added.take(done).push(added[done]));
            assert(task_views(grown@) =~= before + added.take(done + 1));
        }
    }
    assert(added.take(entries.list.len() as int) =~= added);
    grown
}

/// Puts the names of a local directory on the stack, the first name
/// topmost.
fn push_named(stack: Vec<Task>, dir: &String, names: &Vec<String>) -> (grown: Vec<Task>)
    ensures
        task_views(grown@) == task_views(stack@) + named_tasks(dir@, texts(names@)),
{
    let ghost before = task_views(stack@);
    let ghost added = named_tasks(dir@, texts(names@));
    let mut grown = stack;
    let mut i: usize = names.len();
    assert(task_views(grown@) =~= before + added.take(0));
    while i > 0
        invariant
            i <= names.len(),
            added == named_tasks(dir@, texts(names@)),
            task_views(grown@) == before + added.take(names.len() - i),
        decreases i,
    {
        i -= 1;
        let task = Task { dir: dir.clone(), name: names[i].clone(), folder: None };
        let ghost shorter = grown@;
        grown.push(task);
        proof {
            let done: int = names.len() - i - 1;
            assert(task@ == added[done]);
            assert(task_views(grown@) =~= task_views(shorter).push(task@));
            assert(added.take(done + 1) =~= added.take(done).push(added[done]));
            assert(task_views(grown@) =~= before + added.take(done + 1));
        }
    }
    assert(added.take(names.len() as int) =~= added);
    grown
}

impl Engine {
    /// The tally so far.
    pub fn report(&self) -> (report: Report)
        ensures
            report == self@.report,
    {
        self.report
    }

    /// How the work ended, once it has.
    pub fn outcome(&self) -> (outcome: Option<Outcome>)
        ensures
            outcome == (match self@.stage {
                StageView::Done { outcome } => Some(outcome),
                _ => None,
            }),
    {
        match &self.stage {
            Stage::Done { outcome } => Some(*outcome),
            _ => None,
        }
    }

    /// Which way entries are carried in the phase that is running.
    pub fn direction(&self) -> (direction: Direction)
        ensures
            direction == self@.direction,
    {
        self.direction
    }

    /// The number of entries that are listed and not yet visited.
    pub fn pending(&self) -> (count: usize)
        ensures
            count == self@.stack.len(),
    {
        self.stack.len()
    }

    fn local_of(&self, task: &Task) -> (path: String)
        ensures
            path@ == local_child(self@, task@),
    {
        let dir = path_under(self.local_root.as_str(), task.dir.as_str());
        child_path(dir.as_str(), task.name.as_str())
    }

    fn remote_of(&self, task: &Task) -> (path: String)
        ensures
            path@ == remote_child(self@, task@),
    {
        let dir = path_under(self.remote_root.as_str(), task.dir.as_str());
        child_path(dir.as_str(), task.name.as_str())
    }

    /// The operation that is due.
    pub fn action(&self) -> (due: Action)
        ensures
            due@ == action(self@),
    {
        match &self.stage {
            Stage::Stat => Action::Stat { remote: self.remote_root.clone() },
            Stage::List { dir } => match self.direction {
                Direction::Pull => Action::ListRemote {
                    remote: path_under(self.remote_root.as_str(), dir.as_str()),
                },
                Direction::Push => Action::ListLocal {
                    local: path_under(self.local_root.as_str(), dir.as_str()),
                },
            },
            Stage::IsDir { task } => Action::LocalIsDir { local: self.local_of(task) },
            Stage::Exists { task } => match self.direction {
                Direction::Pull => Action::LocalExists { local: self.local_of(task) },
                Direction::Push => Action::RemoteExists { remote: self.remote_of(task) },
            },
            Stage::Apply { task, op } => match op {
                Op::Keep => match self.direction {
                    Direction::Pull => Action::Keep { path: self.local_of(task) },
                    Direction::Push => Action::Keep { path: self.remote_of(task) },
                },
                Op::Create => match self.direction {
                    Direction::Pull => Action::CreateLocalDir { local: self.local_of(task) },
                    Direction::Push => Action::CreateRemoteFolder { remote: self.remote_of(task) },
                },
                Op::Transfer => match self.direction {
                    Direction::Pull => Action::Download {
                        remote: self.remote_of(task),
                        local: self.local_of(task),
                    },
                    Direction::Push => Action::Upload {
                        local: self.local_of(task),
                        remote: self.remote_of(task),
                    },
                },
            },
            Stage::Done { outcome } => Action::Finish { outcome: *outcome },
        }
    }

    fn end(self, outcome: Outcome) -> (next: Engine)
        ensures
            next@ == ended(self@, outcome),
    {
        let mut next = self;
        next.stage = Stage::Done { outcome };
        next
    }

    fn fail(self) -> (next: Engine)
        ensures
            next@ == with_failure(self@),
    {
        let mut next = self;
        next.report.failed = bump(next.report.failed);
        next
    }

    fn succeed(self, op: Op) -> (next: Engine)
        ensures
            next@ == with_success(self@, op),
    {
        let mut next = self;
        match op {
            Op::Keep => {
                next.report.kept = bump(next.report.kept);
            },
            Op::Create => {
                next.report.created = bump(next.report.created);
            },
            Op::Transfer => {
                next.report.transferred = bump(next.report.transferred);
            },
        }
        next
    }

    /// Starts the first phase that the mode asks for.
    fn begin(self) -> (next: Engine)
        ensures
            next@ == begun(self@),
    {
        let mut next = self;
        match next.mode {
            Some(SyncMode::Get) | Some(SyncMode::Bidirectional) => {
                next.direction = Direction::Pull;
                next.stage = Stage::List { dir: String::new() };
            },
            Some(SyncMode::Send) => {
                next.direction = Direction::Push;
                next.stage = Stage::List { dir: String::new() };
            },
            None => {
                next.stage = Stage::Done { outcome: Outcome::Finished };
            },
        }
        next
    }

    /// Ends a phase that has nothing left to visit.
    fn finish_phase(self) -> (next: Engine)
        ensures
            next@ == phase_over(self@),
    {
        let mut next = self;
        let bidirectional = match next.mode {
            Some(SyncMode::Bidirectional) => true,
            _ => false,
        };
        let pulling = match next.direction {
            Direction::Pull => true,
            Direction::Push => false,
        };
        if pulling && bidirectional {
            next.direction = Direction::Push;
            next.stage = Stage::List { dir: String::new() };
        } else {
            next.stage = Stage::Done { outcome: Outcome::Finished };
        }
        next
    }

    /// Turns to the next entry on the stack.
    fn proceed(self) -> (next: Engine)
        ensures
            next@ == proceeded(self@),
    {
        let mut next = self;
        let ghost before = next.stack@;
        match next.stack.pop() {
            None => next.finish_phase(),
            Some(task) => {
                assert(task_views(next.stack@) =~= task_views(before).drop_last());
                assert(task@ == task_views(before).last());
                if task.folder.is_none() {
                    next.stage = Stage::IsDir { task };
                } else {
                    next.stage = Stage::Exists { task };
                }
                next
            },
        }
    }

    /// Moves on once an entry has been dealt with.
    fn settle(self, task: Task) -> (next: Engine)
        ensures
            next@ == settled(self@, task@),
    {
        let folder = match task.folder {
            Some(true) => true,
            _ => false,
        };
        if folder {
            let mut next = self;
            next.stage = Stage::List { dir: create_path(task.dir.as_str(), task.name.as_str()) };
            next
        } else {
            self.proceed()
        }
    }

    /// Takes the stage out of the engine. The engine that is left waits
    /// for the properties of the root until its stage is set anew, which
    /// every step does.
    fn parted(self) -> (parts: (Engine, Stage))
        ensures
            parts.0@ == (State { stage: StageView::Stat, ..self@ }),
            parts.1@ == self@.stage,
    {
        let Engine { local_root, remote_root, mode, direction, stage, stack, report } = self;
        (
            Engine { local_root, remote_root, mode, direction, stage: Stage::Stat, stack, report },
            stage,
        )
    }

    /// The engine with another stage.
    fn staged(self, stage: Stage) -> (next: Engine)
        ensures
            next@ == (State { stage: stage@, ..self@ }),
    {
        let mut next = self;
        next.stage = stage;
        next
    }

    /// The engine after the operation that was due came to `event`.
    pub fn step(self, event: Event) -> (next: Engine)
        ensures
            next@ == step(self@, event@),
    {
        let (engine, stage) = self.parted();
        match stage {
            Stage::Stat => match event {
                Event::Properties(properties) => {
                    if is_file_kind(&properties.kind) {
                        engine.end(Outcome::FileGuard)
                    } else {
                        engine.begin()
                    }
                },
                Event::Failed => engine.end(Outcome::StatFailed),
                _ => engine.end(Outcome::Aborted),
            },
            Stage::List { dir } => {
                let pulling = match engine.direction {
                    Direction::Pull => true,
                    Direction::Push => false,
                };
                match event {
                    Event::Listing(entries) => {
                        if pulling {
                            let mut grown = engine;
                            grown.stack = push_listed(grown.stack, &dir, &entries);
                            grown.proceed()
                        } else {
                            engine.end(Outcome::Aborted)
                        }
                    },
                    Event::Names(names) => {
                        if pulling {
                            engine.end(Outcome::Aborted)
                        } else {
                            let mut grown = engine;
                            grown.stack = push_named(grown.stack, &dir, &names);
                            grown.proceed()
                        }
                    },
                    Event::Failed => engine.fail().proceed(),
                    _ => engine.end(Outcome::Aborted),
                }
            },
            Stage::IsDir { task } => match event {
                Event::Flag(yes) => {
                    let known = Task { dir: task.dir, name: task.name, folder: Some(yes) };
                    engine.staged(Stage::Exists { task: known })
                },
                Event::Failed => engine.fail().proceed(),
                _ => engine.end(Outcome::Aborted),
            },
            Stage::Exists { task } => match event {
                Event::Flag(yes) => {
                    let folder = match task.folder {
                        Some(true) => true,
                        _ => false,
                    };
                    let op = if yes {
                        Op::Keep
                    } else if folder {
                        Op::Create
                    } else {
                        Op::Transfer
                    };
                    engine.staged(Stage::Apply { task, op })
                },
                Event::Failed => engine.fail().proceed(),
                _ => engine.end(Outcome::Aborted),
            },
            Stage::Apply { task, op } => match event {
                Event::Done => engine.succeed(op).settle(task),
                Event::Failed => engine.fail().settle(task),
                _ => engine.end(Outcome::Aborted),
            },
            Stage::Done { outcome } => engine.end(outcome),
        }
    }
}

} // verus!
