//! The walk as a recursion over the tree, and the proof that the engine
//! does what the recursion does, operation for operation.
//!
//! A directory is listed; each entry is dealt with in listing order; a
//! directory among them is descended into before its next sibling is
//! looked at.

use vstd::prelude::*;
use crate::objects::{file_kind, folder_kind, mode_of, DirsyncView, SyncMode};
use crate::utils::{joined, under};
use crate::walk::{
    action, bumped, far_child, initial, is_folder, listed_tasks, local_child, named_tasks,
    proceeded, remote_child, step, ActionView, Direction, EventView, Op, Outcome, Report,
    StageView, State, TaskView,
};
use crate::world::{after, answer, effect, far_side, lemma_after_split, World};

verus! {

/// What a walk does and leaves behind: the operations in order, the world
/// after the last of them, and the tally.
pub struct Course {
    pub ops: Seq<ActionView>,
    pub world: World,
    pub report: Report,
}

/// The operation that lists the directory at the virtual path `dir` on the
/// side that drives the walk. Of `base` only the roots and the direction
/// are read, here and below.
pub open spec fn list_op(base: State, dir: Seq<char>) -> ActionView {
    match base.direction {
        Direction::Pull => ActionView::ListRemote { remote: under(base.remote_root, dir) },
        Direction::Push => ActionView::ListLocal { local: under(base.local_root, dir) },
    }
}

/// The entries that a listing answered with, in listing order. None where
/// the listing failed.
pub open spec fn listed(dir: Seq<char>, listing: EventView) -> Option<Seq<TaskView>> {
    match listing {
        EventView::Listing { entries } => Some(
            Seq::new(
                entries.len(),
                |i: int|
                    TaskView {
                        dir,
                        name: entries[i].name,
                        folder: Some(entries[i].kind == folder_kind()),
                    },
            ),
        ),
        EventView::Names { names } => Some(
            Seq::new(names.len(), |i: int| TaskView { dir, name: names[i], folder: None }),
        ),
        _ => None,
    }
}

/// The operation that asks whether the far side has the entry.
pub open spec fn exists_op(base: State, task: TaskView) -> ActionView {
    match base.direction {
        Direction::Pull => ActionView::LocalExists { local: local_child(base, task) },
        Direction::Push => ActionView::RemoteExists { remote: remote_child(base, task) },
    }
}

/// The operation that deals with the entry: to keep what is there, to
/// create a directory that is missing, to transfer a file that is
/// missing.
pub open spec fn apply_op(base: State, task: TaskView, present: bool) -> ActionView {
    if present {
        ActionView::Keep { path: far_child(base, task) }
    } else if is_folder(task) {
        match base.direction {
            Direction::Pull => ActionView::CreateLocalDir { local: local_child(base, task) },
            Direction::Push => ActionView::CreateRemoteFolder { remote: remote_child(base, task) },
        }
    } else {
        match base.direction {
            Direction::Pull => ActionView::Download {
                remote: remote_child(base, task),
                local: local_child(base, task),
            },
            Direction::Push => ActionView::Upload {
                local: local_child(base, task),
                remote: remote_child(base, task),
            },
        }
    }
}

/// The tally with one more failure.
pub open spec fn failing(report: Report) -> Report {
    Report { failed: bumped(report.failed), ..report }
}

/// The tally after the entry was dealt with.
pub open spec fn tallied(report: Report, task: TaskView, present: bool, done: bool) -> Report {
    if !done {
        failing(report)
    } else if present {
        Report { kept: bumped(report.kept), ..report }
    } else if is_folder(task) {
        Report { created: bumped(report.created), ..report }
    } else {
        Report { transferred: bumped(report.transferred), ..report }
    }
}

/// The walk of the directory at the virtual path `dir`, not deeper than
/// `depth` levels. The directory is listed. A listing that fails is
/// counted and that is all. Otherwise the entries are visited in listing
/// order. None where the tree is deeper than `depth`.
pub open spec fn visit_dir(
    base: State,
    world: World,
    report: Report,
    dir: Seq<char>,
    depth: nat,
) -> Option<Course>
    decreases depth, 0nat, 0nat,
{
    match listed(dir, answer(world, list_op(base, dir))) {
        None => Some(Course { ops: seq![list_op(base, dir)], world, report: failing(report) }),
        Some(entries) => if depth == 0 {
            None
        } else {
            match visit_entries(base, world, report, entries, (depth - 1) as nat) {
                None => None,
                Some(rest) => Some(Course { ops: seq![list_op(base, dir)] + rest.ops, ..rest }),
            }
        },
    }
}

/// The visits of `entries`, one after the other.
pub open spec fn visit_entries(
    base: State,
    world: World,
    report: Report,
    entries: Seq<TaskView>,
    depth: nat,
) -> Option<Course>
    decreases depth, 2nat, entries.len(),
{
    if entries.len() == 0 {
        Some(Course { ops: Seq::empty(), world, report })
    } else {
        match visit_entry(base, world, report, entries.first(), depth) {
            None => None,
            Some(first) => match visit_entries(
                base,
                first.world,
                first.report,
                entries.drop_first(),
                depth,
            ) {
                None => None,
                Some(rest) => Some(Course { ops: first.ops + rest.ops, ..rest }),
            },
        }
    }
}

/// The question whether the local entry is a directory.
pub open spec fn probe_op(base: State, entry: TaskView) -> ActionView {
    ActionView::LocalIsDir { local: local_child(base, entry) }
}

/// What is known of the entry once it has been asked, where need be,
/// whether it is a directory.
pub open spec fn known(base: State, world: World, entry: TaskView) -> TaskView {
    if entry.folder is None {
        TaskView {
            folder: Some(answer(world, probe_op(base, entry)) == (EventView::Flag { yes: true })),
            ..entry
        }
    } else {
        entry
    }
}

/// The questions asked of an entry: whether it is a directory, where the
/// listing did not say, and whether the far side has it. A question that
/// fails is the last.
pub open spec fn questions(base: State, world: World, entry: TaskView) -> Seq<ActionView> {
    if entry.folder is None {
        if answer(world, probe_op(base, entry)) is Failed {
            seq![probe_op(base, entry)]
        } else {
            seq![probe_op(base, entry), exists_op(base, known(base, world, entry))]
        }
    } else {
        seq![exists_op(base, entry)]
    }
}

/// True when every question asked of the entry is answered.
pub open spec fn answered(base: State, world: World, entry: TaskView) -> bool {
    &&& entry.folder is None ==> !(answer(world, probe_op(base, entry)) is Failed)
    &&& !(answer(world, exists_op(base, known(base, world, entry))) is Failed)
}

/// The visit of one entry. Where the listing did not say whether the entry
/// is a directory, that is asked first. Then the far side is asked whether
/// it has the entry. An entry of which a question fails is counted as
/// failed and passed over. Otherwise what the far side has is kept; a
/// directory that is missing is created, a file that is missing is
/// transferred. A directory is then walked in its turn, whether it was
/// there, was created, or could not be created.
pub open spec fn visit_entry(
    base: State,
    world: World,
    report: Report,
    entry: TaskView,
    depth: nat,
) -> Option<Course>
    decreases depth, 1nat, 0nat,
{
    let task = known(base, world, entry);
    let present = answer(world, exists_op(base, task)) == (EventView::Flag { yes: true });
    let deal = apply_op(base, task, present);
    let done = answer(world, deal) == EventView::Done;
    if !answered(base, world, entry) {
        Some(Course { ops: questions(base, world, entry), world, report: failing(report) })
    } else {
        let own = Course {
            ops: questions(base, world, entry) + seq![deal],
            world: effect(world, deal),
            report: tallied(report, task, present, done),
        };
        if is_folder(task) {
            match visit_dir(base, own.world, own.report, joined(task.dir, task.name), depth) {
                None => None,
                Some(below) => Some(Course { ops: own.ops + below.ops, ..below }),
            }
        } else {
            Some(own)
        }
    }
}

/// The operations that are due at each of the first `steps` points of a
/// run.
pub open spec fn trace(state: State, world: World, steps: nat) -> Seq<ActionView> {
    Seq::new(steps, |k: int| action(after(state, world, k as nat).0))
}

/// The entries of a listing as they lie on the stack: the first last.
pub open spec fn stacked(entries: Seq<TaskView>) -> Seq<TaskView> {
    Seq::new(entries.len(), |i: int| entries[entries.len() - 1 - i])
}

/// The state that waits for the listing of `dir` with `rest` on the
/// stack.
pub open spec fn listing(base: State, rest: Seq<TaskView>, dir: Seq<char>) -> State {
    State { stage: StageView::List { dir }, stack: rest, ..base }
}

/// The state that turns to what is next on the stack `rest`.
pub open spec fn turning(base: State, rest: Seq<TaskView>, report: Report) -> State {
    proceeded(State { stack: rest, report, ..base })
}

/// The operations of a run taken in two parts.
proof fn lemma_trace_split(state: State, world: World, steps: nat, more: nat)
    ensures
        trace(state, world, steps + more) == trace(state, world, steps) + trace(
            after(state, world, steps).0,
            after(state, world, steps).1,
            more,
        ),
{
    let (middle, sides) = after(state, world, steps);
    assert forall|k: nat| k < more implies action(after(state, world, steps + k).0) == action(
        (#[trigger] after(middle, sides, k)).0,
    ) by {
        lemma_after_split(state, world, steps, k);
    }
    assert(trace(state, world, steps + more) =~= trace(state, world, steps) + trace(
        middle,
        sides,
        more,
    ));
}

/// A run of one step.
proof fn lemma_one_step(state: State, world: World)
    ensures
        after(state, world, 1) == (
            step(state, answer(world, action(state))),
            effect(world, action(state)),
        ),
        trace(state, world, 1) == seq![action(state)],
{
    assert(after(state, world, 0) == (state, world));
    assert(trace(state, world, 1) =~= seq![action(state)]);
}

/// One step, then a run from where it led.
proof fn lemma_step_then(state: State, world: World, more: nat)
    ensures
        after(state, world, 1 + more) == after(
            step(state, answer(world, action(state))),
            effect(world, action(state)),
            more,
        ),
        trace(state, world, 1 + more) == seq![action(state)] + trace(
            step(state, answer(world, action(state))),
            effect(world, action(state)),
            more,
        ),
{
    lemma_one_step(state, world);
    lemma_after_split(state, world, 1, more);
    lemma_trace_split(state, world, 1, more);
}

/// From the state that waits for the listing of `dir`, the engine goes
/// through the walk of `dir` and then turns to what was on the stack.
proof fn lemma_dir(base: State, world: World, rest: Seq<TaskView>, dir: Seq<char>, depth: nat)
    requires
        visit_dir(base, world, base.report, dir, depth) is Some,
    ensures
        ({
            let course = visit_dir(base, world, base.report, dir, depth).unwrap();
            let start = listing(base, rest, dir);
            &&& trace(start, world, course.ops.len()) == course.ops
            &&& after(start, world, course.ops.len()) == (
                turning(base, rest, course.report),
                course.world,
            )
        }),
    decreases depth, 0nat, 0nat,
{
    let course = visit_dir(base, world, base.report, dir, depth).unwrap();
    let start = listing(base, rest, dir);
    let event = answer(world, list_op(base, dir));
    assert(action(start) == list_op(base, dir));
    match listed(dir, event) {
        None => {
            lemma_one_step(start, world);
        },
        Some(entries) => {
            let inner = visit_entries(base, world, base.report, entries, (depth - 1) as nat)
                .unwrap();
            let next = step(start, event);
            match event {
                EventView::Listing { entries: list } => {
                    assert(listed_tasks(dir, list) =~= stacked(entries));
                },
                EventView::Names { names } => {
                    assert(named_tasks(dir, names) =~= stacked(entries));
                },
                _ => {},
            }
            assert(next == turning(base, rest + stacked(entries), base.report));
            lemma_entries(base, world, rest, entries, (depth - 1) as nat);
            lemma_step_then(start, world, inner.ops.len());
            assert(course.ops.len() == 1 + inner.ops.len());
        },
    }
}

/// With `entries` on top of the stack, the engine goes through their
/// visits in listing order and then turns to what was below them.
proof fn lemma_entries(
    base: State,
    world: World,
    rest: Seq<TaskView>,
    entries: Seq<TaskView>,
    depth: nat,
)
    requires
        visit_entries(base, world, base.report, entries, depth) is Some,
    ensures
        ({
            let course = visit_entries(base, world, base.report, entries, depth).unwrap();
            let start = turning(base, rest + stacked(entries), base.report);
            &&& trace(start, world, course.ops.len()) == course.ops
            &&& after(start, world, course.ops.len()) == (
                turning(base, rest, course.report),
                course.world,
            )
        }),
    decreases depth, 2nat, entries.len(),
{
    let course = visit_entries(base, world, base.report, entries, depth).unwrap();
    let start = turning(base, rest + stacked(entries), base.report);
    if entries.len() == 0 {
        assert(rest + stacked(entries) =~= rest);
        assert(State { report: base.report, ..base } == base);
        assert(trace(start, world, 0) =~= course.ops);
    } else {
        let entry = entries.first();
        let later = entries.drop_first();
        let below = rest + stacked(later);
        assert(rest + stacked(entries) =~= below.push(entry));
        let first = visit_entry(base, world, base.report, entry, depth).unwrap();
        let moved = State { report: first.report, ..base };
        let second = visit_entries(moved, first.world, first.report, later, depth).unwrap();
        lemma_base_report(base, first.world, first.report, later, depth);
        lemma_entry(base, world, below, entry, depth);
        lemma_entries(moved, first.world, rest, later, depth);
        lemma_after_split(start, world, first.ops.len(), second.ops.len());
        lemma_trace_split(start, world, first.ops.len(), second.ops.len());
        assert(turning(moved, below, first.report) == turning(base, below, first.report));
        assert(turning(moved, rest, second.report) == turning(base, rest, second.report));
    }
}

/// The recursion reads of `base` neither the tally nor the stage nor the
/// stack.
proof fn lemma_base_report(
    base: State,
    world: World,
    report: Report,
    entries: Seq<TaskView>,
    depth: nat,
)
    ensures
        visit_entries(State { report, ..base }, world, report, entries, depth) == visit_entries(
            base,
            world,
            report,
            entries,
            depth,
        ),
    decreases depth, 2nat, entries.len(),
{
    lemma_base_free(State { report, ..base }, base, world, report, entries, depth);
}

/// The visits of entries read of the state the roots and the direction
/// and nothing else.
proof fn lemma_base_free(
    one: State,
    other: State,
    world: World,
    report: Report,
    entries: Seq<TaskView>,
    depth: nat,
)
    requires
        one.local_root == other.local_root,
        one.remote_root == other.remote_root,
        one.direction == other.direction,
    ensures
        visit_entries(one, world, report, entries, depth) == visit_entries(
            other,
            world,
            report,
            entries,
            depth,
        ),
    decreases depth, 2nat, entries.len(),
{
    if entries.len() > 0 {
        lemma_entry_free(one, other, world, report, entries.first(), depth);
        match visit_entry(one, world, report, entries.first(), depth) {
            None => {},
            Some(first) => {
                lemma_base_free(one, other, first.world, first.report, entries.drop_first(), depth);
            },
        }
    }
}

/// The visit of an entry reads of the state the roots and the direction
/// and nothing else.
proof fn lemma_entry_free(
    one: State,
    other: State,
    world: World,
    report: Report,
    entry: TaskView,
    depth: nat,
)
    requires
        one.local_root == other.local_root,
        one.remote_root == other.remote_root,
        one.direction == other.direction,
    ensures
        visit_entry(one, world, report, entry, depth) == visit_entry(
            other,
            world,
            report,
            entry,
            depth,
        ),
    decreases depth, 1nat, 0nat,
{
    let task = known(one, world, entry);
    let present = answer(world, exists_op(one, task)) == (EventView::Flag { yes: true });
    let deal = apply_op(one, task, present);
    let done = answer(world, deal) == EventView::Done;
    if is_folder(task) {
        lemma_dir_free(
            one,
            other,
            effect(world, deal),
            tallied(report, task, present, done),
            joined(task.dir, task.name),
            depth,
        );
    }
}

/// The walk of a directory reads of the state the roots and the direction
/// and nothing else.
proof fn lemma_dir_free(
    one: State,
    other: State,
    world: World,
    report: Report,
    dir: Seq<char>,
    depth: nat,
)
    requires
        one.local_root == other.local_root,
        one.remote_root == other.remote_root,
        one.direction == other.direction,
    ensures
        visit_dir(one, world, report, dir, depth) == visit_dir(other, world, report, dir, depth),
    decreases depth, 0nat, 0nat,
{
    match listed(dir, answer(world, list_op(one, dir))) {
        None => {},
        Some(entries) => {
            if depth > 0 {
                lemma_base_free(one, other, world, report, entries, (depth - 1) as nat);
            }
        },
    }
}

/// The state that asks whether the far side has the entry.
pub open spec fn asking(base: State, rest: Seq<TaskView>, task: TaskView) -> State {
    State { stage: StageView::Exists { task }, stack: rest, ..base }
}

/// The state once the entry has been dealt with: a directory is listed
/// next, after a file the engine turns to what is next on the stack.
pub open spec fn dealt(base: State, rest: Seq<TaskView>, task: TaskView, report: Report) -> State {
    if is_folder(task) {
        listing(State { report, ..base }, rest, joined(task.dir, task.name))
    } else {
        turning(base, rest, report)
    }
}

/// Where it is not known whether the entry is a directory, the first
/// step asks; where it is known, nothing is asked. A question that fails
/// passes the entry over.
proof fn lemma_probe(base: State, world: World, rest: Seq<TaskView>, entry: TaskView)
    ensures
        ({
            let start = turning(base, rest.push(entry), base.report);
            if entry.folder is None {
                &&& trace(start, world, 1) == seq![probe_op(base, entry)]
                &&& after(start, world, 1) == (
                    if answer(world, probe_op(base, entry)) is Failed {
                        turning(base, rest, failing(base.report))
                    } else {
                        asking(base, rest, known(base, world, entry))
                    },
                    world,
                )
            } else {
                start == asking(base, rest, entry)
            }
        }),
{
    let start = turning(base, rest.push(entry), base.report);
    assert(rest.push(entry).drop_last() =~= rest);
    assert(rest.push(entry).last() == entry);
    if entry.folder is None {
        lemma_one_step(start, world);
    }
}

/// One step asks whether the far side has the entry. A question that
/// fails passes the entry over.
proof fn lemma_ask(base: State, world: World, rest: Seq<TaskView>, task: TaskView)
    requires
        task.folder is Some,
        answer(world, exists_op(base, task)) is Failed,
    ensures
        trace(asking(base, rest, task), world, 1) == seq![exists_op(base, task)],
        after(asking(base, rest, task), world, 1) == (
            turning(base, rest, failing(base.report)),
            world,
        ),
{
    assert(action(asking(base, rest, task)) == exists_op(base, task));
    lemma_one_step(asking(base, rest, task), world);
}

/// Two steps ask whether the far side has the entry and deal with it.
proof fn lemma_ask_and_deal(base: State, world: World, rest: Seq<TaskView>, task: TaskView)
    requires
        task.folder is Some,
        !(answer(world, exists_op(base, task)) is Failed),
    ensures
        ({
            let present = answer(world, exists_op(base, task)) == (EventView::Flag { yes: true });
            let deal = apply_op(base, task, present);
            let done = answer(world, deal) == EventView::Done;
            &&& trace(asking(base, rest, task), world, 2) == seq![exists_op(base, task), deal]
            &&& after(asking(base, rest, task), world, 2) == (
                dealt(base, rest, task, tallied(base.report, task, present, done)),
                effect(world, deal),
            )
        }),
{
    let present = answer(world, exists_op(base, task)) == (EventView::Flag { yes: true });
    let deal = apply_op(base, task, present);
    let op = if present {
        Op::Keep
    } else if is_folder(task) {
        Op::Create
    } else {
        Op::Transfer
    };
    let dealing = State { stage: StageView::Apply { task, op }, stack: rest, ..base };
    assert(action(asking(base, rest, task)) == exists_op(base, task));
    assert(step(asking(base, rest, task), answer(world, exists_op(base, task))) == dealing);
    assert(effect(world, exists_op(base, task)) == world);
    assert(action(dealing) == deal);
    lemma_one_step(dealing, world);
    lemma_step_then(asking(base, rest, task), world, 1);
    assert(trace(asking(base, rest, task), world, 2) =~= seq![exists_op(base, task), deal]);
}

/// The questions asked of an entry that is passed over.
proof fn lemma_passed_over(base: State, world: World, rest: Seq<TaskView>, entry: TaskView)
    requires
        !answered(base, world, entry),
    ensures
        ({
            let start = turning(base, rest.push(entry), base.report);
            let asked = questions(base, world, entry);
            &&& trace(start, world, asked.len()) == asked
            &&& after(start, world, asked.len()) == (
                turning(base, rest, failing(base.report)),
                world,
            )
        }),
{
    let start = turning(base, rest.push(entry), base.report);
    let task = known(base, world, entry);
    lemma_probe(base, world, rest, entry);
    if entry.folder is None {
        if !(answer(world, probe_op(base, entry)) is Failed) {
            lemma_ask(base, world, rest, task);
            lemma_after_split(start, world, 1, 1);
            lemma_trace_split(start, world, 1, 1);
        }
    } else {
        lemma_ask(base, world, rest, task);
    }
}

/// The entry's own operations: the questions and what is done with it.
proof fn lemma_own(base: State, world: World, rest: Seq<TaskView>, entry: TaskView)
    requires
        answered(base, world, entry),
    ensures
        ({
            let task = known(base, world, entry);
            let present = answer(world, exists_op(base, task)) == (EventView::Flag { yes: true });
            let deal = apply_op(base, task, present);
            let done = answer(world, deal) == EventView::Done;
            let own = questions(base, world, entry) + seq![deal];
            let start = turning(base, rest.push(entry), base.report);
            &&& trace(start, world, own.len()) == own
            &&& after(start, world, own.len()) == (
                dealt(base, rest, task, tallied(base.report, task, present, done)),
                effect(world, deal),
            )
        }),
{
    let task = known(base, world, entry);
    let start = turning(base, rest.push(entry), base.report);
    let present = answer(world, exists_op(base, task)) == (EventView::Flag { yes: true });
    let deal = apply_op(base, task, present);
    lemma_probe(base, world, rest, entry);
    lemma_ask_and_deal(base, world, rest, task);
    if entry.folder is None {
        lemma_after_split(start, world, 1, 2);
        lemma_trace_split(start, world, 1, 2);
        assert(questions(base, world, entry) + seq![deal] =~= seq![probe_op(base, entry)] + seq![
            exists_op(base, task),
            deal,
        ]);
    } else {
        assert(questions(base, world, entry) + seq![deal] =~= seq![exists_op(base, task), deal]);
    }
}

/// With `entry` on top of the stack, the engine goes through its visit
/// and then turns to what was below it.
proof fn lemma_entry(base: State, world: World, rest: Seq<TaskView>, entry: TaskView, depth: nat)
    requires
        visit_entry(base, world, base.report, entry, depth) is Some,
    ensures
        ({
            let course = visit_entry(base, world, base.report, entry, depth).unwrap();
            let start = turning(base, rest.push(entry), base.report);
            &&& trace(start, world, course.ops.len()) == course.ops
            &&& after(start, world, course.ops.len()) == (
                turning(base, rest, course.report),
                course.world,
            )
        }),
    decreases depth, 1nat, 0nat,
{
    let course = visit_entry(base, world, base.report, entry, depth).unwrap();
    let start = turning(base, rest.push(entry), base.report);
    let task = known(base, world, entry);
    let present = answer(world, exists_op(base, task)) == (EventView::Flag { yes: true });
    let deal = apply_op(base, task, present);
    let done = answer(world, deal) == EventView::Done;
    let own_report = tallied(base.report, task, present, done);
    let own_world = effect(world, deal);
    if !answered(base, world, entry) {
        lemma_passed_over(base, world, rest, entry);
    } else {
        lemma_own(base, world, rest, entry);
        let count: nat = (questions(base, world, entry) + seq![deal]).len();
        if is_folder(task) {
            let moved = State { report: own_report, ..base };
            let dir = joined(task.dir, task.name);
            lemma_dir_free(base, moved, own_world, own_report, dir, depth);
            let below = visit_dir(moved, own_world, own_report, dir, depth).unwrap();
            lemma_dir(moved, own_world, rest, dir, depth);
            assert(turning(moved, rest, below.report) == turning(base, rest, below.report));
            lemma_after_split(start, world, count, below.ops.len());
            lemma_trace_split(start, world, count, below.ops.len());
            assert(course.ops.len() == count + below.ops.len());
        }
    }
}

/// The engine follows the recursion. For a directive that runs in one
/// direction, over a remote root that is no file and a tree no deeper than
/// `depth`: the first operation asks for the properties of the remote
/// root; the operations after it are those of the recursive walk of the
/// root directory, one for one and in its order; then the engine stops as
/// finished, with the tally of the walk, an empty stack, and the world as
/// the walk leaves it.
pub proof fn law_engine_follows_the_walk(dir: DirsyncView, world: World, depth: nat)
    requires
        mode_of(dir.sync_mode) == Some(SyncMode::Get) || mode_of(dir.sync_mode) == Some(
            SyncMode::Send,
        ),
        world.root_kind != file_kind(),
        visit_dir(
            step(initial(dir), EventView::Properties { kind: world.root_kind }),
            world,
            initial(dir).report,
            Seq::empty(),
            depth,
        ) is Some,
    ensures
        ({
            let base = step(initial(dir), EventView::Properties { kind: world.root_kind });
            let course = visit_dir(base, world, initial(dir).report, Seq::empty(), depth).unwrap();
            let (end, sides) = after(initial(dir), world, 1 + course.ops.len());
            &&& trace(initial(dir), world, 2 + course.ops.len()) == seq![
                ActionView::Stat { remote: dir.remote_path },
            ] + course.ops + seq![ActionView::Finish { outcome: Outcome::Finished }]
            &&& end.stage == (StageView::Done { outcome: Outcome::Finished })
            &&& end.stack.len() == 0
            &&& end.report == course.report
            &&& sides == course.world
        }),
{
    let base = step(initial(dir), EventView::Properties { kind: world.root_kind });
    let course = visit_dir(base, world, initial(dir).report, Seq::empty(), depth).unwrap();
    assert(base == listing(base, Seq::empty(), Seq::empty()));
    lemma_dir(base, world, Seq::empty(), Seq::empty(), depth);
    let end = turning(base, Seq::empty(), course.report);
    lemma_step_then(initial(dir), world, course.ops.len());
    lemma_trace_split(initial(dir), world, 1 + course.ops.len(), 1);
    lemma_one_step(end, course.world);
    assert(1 + course.ops.len() + 1 == 2 + course.ops.len());
}

/// The engine follows both recursions of a bidirectional directive. Over
/// a remote root that is no file and trees no deeper than `depth`: after
/// the request for the properties of the remote root come the operations
/// of the recursive pull of the root directory, then, in the world and
/// with the tally that the pull left, those of the recursive push of the
/// root directory; then the engine stops as finished, with the tally of
/// both.
pub proof fn law_engine_follows_both_walks(dir: DirsyncView, world: World, depth: nat)
    requires
        mode_of(dir.sync_mode) == Some(SyncMode::Bidirectional),
        world.root_kind != file_kind(),
        visit_dir(
            step(initial(dir), EventView::Properties { kind: world.root_kind }),
            world,
            initial(dir).report,
            Seq::empty(),
            depth,
        ) matches Some(pull) && visit_dir(
            State {
                direction: Direction::Push,
                ..step(initial(dir), EventView::Properties { kind: world.root_kind })
            },
            pull.world,
            pull.report,
            Seq::empty(),
            depth,
        ) is Some,
    ensures
        ({
            let pulling = step(initial(dir), EventView::Properties { kind: world.root_kind });
            let pushing = State { direction: Direction::Push, ..pulling };
            let pull = visit_dir(pulling, world, initial(dir).report, Seq::empty(), depth).unwrap();
            let push = visit_dir(pushing, pull.world, pull.report, Seq::empty(), depth).unwrap();
            let (end, sides) = after(initial(dir), world, 1 + pull.ops.len() + push.ops.len());
            &&& trace(initial(dir), world, 2 + pull.ops.len() + push.ops.len()) == seq![
                ActionView::Stat { remote: dir.remote_path },
            ] + pull.ops + push.ops + seq![ActionView::Finish { outcome: Outcome::Finished }]
            &&& end.stage == (StageView::Done { outcome: Outcome::Finished })
            &&& end.stack.len() == 0
            &&& end.report == push.report
            &&& sides == push.world
        }),
{
    let pulling = step(initial(dir), EventView::Properties { kind: world.root_kind });
    let pull = visit_dir(pulling, world, initial(dir).report, Seq::empty(), depth).unwrap();
    let pushing = State { direction: Direction::Push, ..pulling };
    let push = visit_dir(pushing, pull.world, pull.report, Seq::empty(), depth).unwrap();
    assert(pulling == listing(pulling, Seq::empty(), Seq::empty()));
    lemma_dir(pulling, world, Seq::empty(), Seq::empty(), depth);
    let turned = turning(pulling, Seq::empty(), pull.report);
    let moved = State { report: pull.report, ..pushing };
    assert(turned == listing(moved, Seq::empty(), Seq::empty()));
    lemma_dir_free(pushing, moved, pull.world, pull.report, Seq::empty(), depth);
    lemma_dir(moved, pull.world, Seq::empty(), Seq::empty(), depth);
    let end = turning(moved, Seq::empty(), push.report);
    let first: nat = 1 + pull.ops.len();
    lemma_step_then(initial(dir), world, pull.ops.len());
    lemma_after_split(initial(dir), world, first, push.ops.len());
    lemma_trace_split(initial(dir), world, first, push.ops.len());
    lemma_trace_split(initial(dir), world, first + push.ops.len(), 1);
    lemma_one_step(end, push.world);
    assert(first + push.ops.len() + 1 == 2 + pull.ops.len() + push.ops.len());
    assert(first + push.ops.len() == 1 + pull.ops.len() + push.ops.len());
}

/// True when `later` is `earlier` but for what the far sides gained.
pub open spec fn grown(earlier: World, later: World) -> bool {
    &&& later.root_kind == earlier.root_kind
    &&& later.remote_dirs == earlier.remote_dirs
    &&& later.local_dirs == earlier.local_dirs
    &&& later.broken == earlier.broken
    &&& later.silent == earlier.silent
    &&& earlier.local.subset_of(later.local)
    &&& earlier.stored.subset_of(later.stored)
}

/// True when the far side holds the tree below the directory at the
/// virtual path `dir`, down to `depth` levels: every entry of the
/// directory of which the questions are answered is there, and so is the
/// tree below every such entry that is a directory. A directory that
/// cannot be listed has no entries to hold.
pub open spec fn mirrored(base: State, world: World, dir: Seq<char>, depth: nat) -> bool
    decreases depth, 0nat,
{
    match listed(dir, answer(world, list_op(base, dir))) {
        None => true,
        Some(entries) => depth > 0 && forall|i: int|
            0 <= i < entries.len() ==> mirrored_entry(
                base,
                world,
                #[trigger] entries[i],
                (depth - 1) as nat,
            ),
    }
}

/// True when the far side holds the entry, where its questions are
/// answered, and the tree below it, where it is a directory.
pub open spec fn mirrored_entry(base: State, world: World, entry: TaskView, depth: nat) -> bool
    decreases depth, 1nat,
{
    answered(base, world, entry) ==> {
        &&& far_side(world, base.direction).contains(far_child(base, entry))
        &&& is_folder(known(base, world, entry)) ==> mirrored(
            base,
            world,
            joined(entry.dir, entry.name),
            depth,
        )
    }
}

/// What holds of the far side stays so when the far side gains.
proof fn lemma_mirrored_stays(base: State, earlier: World, later: World, dir: Seq<char>, depth: nat)
    requires
        grown(earlier, later),
        mirrored(base, earlier, dir, depth),
    ensures
        mirrored(base, later, dir, depth),
    decreases depth, 0nat,
{
    match listed(dir, answer(earlier, list_op(base, dir))) {
        None => {},
        Some(entries) => {
            assert forall|i: int| 0 <= i < entries.len() implies mirrored_entry(
                base,
                later,
                #[trigger] entries[i],
                (depth - 1) as nat,
            ) by {
                assert(mirrored_entry(base, earlier, entries[i], (depth - 1) as nat));
                lemma_mirrored_entry_stays(base, earlier, later, entries[i], (depth - 1) as nat);
            }
        },
    }
}

/// What holds of the far side stays so when the far side gains.
proof fn lemma_mirrored_entry_stays(
    base: State,
    earlier: World,
    later: World,
    entry: TaskView,
    depth: nat,
)
    requires
        grown(earlier, later),
        mirrored_entry(base, earlier, entry, depth),
    ensures
        mirrored_entry(base, later, entry, depth),
    decreases depth, 1nat,
{
    if answered(base, earlier, entry) && is_folder(known(base, earlier, entry)) {
        lemma_mirrored_stays(base, earlier, later, joined(entry.dir, entry.name), depth);
    }
}

/// The walk of a directory changes nothing but the far sides, which gain,
/// and leaves the far side with the tree below the directory.
proof fn lemma_dir_mirrored(base: State, world: World, report: Report, dir: Seq<char>, depth: nat)
    requires
        visit_dir(base, world, report, dir, depth) is Some,
    ensures
        grown(world, visit_dir(base, world, report, dir, depth).unwrap().world),
        mirrored(base, visit_dir(base, world, report, dir, depth).unwrap().world, dir, depth),
    decreases depth, 0nat, 0nat,
{
    match listed(dir, answer(world, list_op(base, dir))) {
        None => {},
        Some(entries) => {
            lemma_entries_mirrored(base, world, report, entries, (depth - 1) as nat);
        },
    }
}

/// The visits of entries change nothing but the far sides, which gain,
/// and leave the far side with every one of the entries.
proof fn lemma_entries_mirrored(
    base: State,
    world: World,
    report: Report,
    entries: Seq<TaskView>,
    depth: nat,
)
    requires
        visit_entries(base, world, report, entries, depth) is Some,
    ensures
        grown(world, visit_entries(base, world, report, entries, depth).unwrap().world),
        forall|i: int|
            0 <= i < entries.len() ==> mirrored_entry(
                base,
                visit_entries(base, world, report, entries, depth).unwrap().world,
                #[trigger] entries[i],
                depth,
            ),
    decreases depth, 2nat, entries.len(),
{
    if entries.len() > 0 {
        let end = visit_entries(base, world, report, entries, depth).unwrap().world;
        let first = visit_entry(base, world, report, entries.first(), depth).unwrap();
        let later = entries.drop_first();
        lemma_entry_mirrored(base, world, report, entries.first(), depth);
        lemma_entries_mirrored(base, first.world, first.report, later, depth);
        lemma_mirrored_entry_stays(base, first.world, end, entries.first(), depth);
        assert forall|i: int| 0 <= i < entries.len() implies mirrored_entry(
            base,
            end,
            #[trigger] entries[i],
            depth,
        ) by {
            if i > 0 {
                assert(entries[i] == later[i - 1]);
            }
        }
    }
}

/// The visit of an entry changes nothing but the far sides, which gain,
/// and leaves the far side with the entry.
proof fn lemma_entry_mirrored(
    base: State,
    world: World,
    report: Report,
    entry: TaskView,
    depth: nat,
)
    requires
        visit_entry(base, world, report, entry, depth) is Some,
    ensures
        grown(world, visit_entry(base, world, report, entry, depth).unwrap().world),
        mirrored_entry(
            base,
            visit_entry(base, world, report, entry, depth).unwrap().world,
            entry,
            depth,
        ),
    decreases depth, 1nat, 0nat,
{
    let task = known(base, world, entry);
    let present = answer(world, exists_op(base, task)) == (EventView::Flag { yes: true });
    let deal = apply_op(base, task, present);
    let done = answer(world, deal) == EventView::Done;
    let own_world = effect(world, deal);
    if answered(base, world, entry) {
        assert(far_side(own_world, base.direction).contains(far_child(base, entry)));
        if is_folder(task) {
            lemma_dir_mirrored(
                base,
                own_world,
                tallied(report, task, present, done),
                joined(task.dir, task.name),
                depth,
            );
        }
    }
}

/// Completeness of the walk. The recursive walk of a directory leaves the
/// far side with the whole tree below it: every entry of every directory
/// it went through, but for those of which a question was not answered.
/// The walk takes nothing away and touches nothing but the far sides.
pub proof fn law_walk_is_complete(
    base: State,
    world: World,
    report: Report,
    dir: Seq<char>,
    depth: nat,
)
    requires
        visit_dir(base, world, report, dir, depth) is Some,
    ensures
        grown(world, visit_dir(base, world, report, dir, depth).unwrap().world),
        mirrored(base, visit_dir(base, world, report, dir, depth).unwrap().world, dir, depth),
{
    lemma_dir_mirrored(base, world, report, dir, depth);
}

/// Completeness of a finished run. For a directive that runs in one
/// direction, over a remote root that is no file and a tree no deeper than
/// `depth`: when the engine has stopped, the far side holds the whole
/// tree. After a pull every remote entry exists locally, after a push
/// every local entry exists remotely, but for the entries of which a
/// question was not answered and what lies in a directory that could not
/// be listed. Nothing that was there before is gone.
pub proof fn law_finished_run_is_complete(dir: DirsyncView, world: World, depth: nat)
    requires
        mode_of(dir.sync_mode) == Some(SyncMode::Get) || mode_of(dir.sync_mode) == Some(
            SyncMode::Send,
        ),
        world.root_kind != file_kind(),
        visit_dir(
            step(initial(dir), EventView::Properties { kind: world.root_kind }),
            world,
            initial(dir).report,
            Seq::empty(),
            depth,
        ) is Some,
    ensures
        ({
            let base = step(initial(dir), EventView::Properties { kind: world.root_kind });
            let course = visit_dir(base, world, initial(dir).report, Seq::empty(), depth).unwrap();
            let (end, sides) = after(initial(dir), world, 1 + course.ops.len());
            &&& end.stage == (StageView::Done { outcome: Outcome::Finished })
            &&& grown(world, sides)
            &&& mirrored(base, sides, Seq::empty(), depth)
        }),
{
    let base = step(initial(dir), EventView::Properties { kind: world.root_kind });
    law_engine_follows_the_walk(dir, world, depth);
    lemma_dir_mirrored(base, world, initial(dir).report, Seq::empty(), depth);
}

} // verus!
