//! The engine run against a model of the two sides.
//!
//! The model holds the remote tree as a pull reads it and the local tree
//! as a push reads it. Neither changes while the engine runs. What a phase
//! creates or transfers exists on its far side from then on.

use vstd::prelude::*;
use crate::laws::{
    changes_far_side, far_path, law_change_only_when_absent, lemma_step_sound, sound,
};
use crate::objects::{mode_of, DirsyncView, Entry, SyncMode};
use crate::walk::{
    action, far_child, initial, step, ActionView, Direction, EventView, Op, StageView, State,
    TaskView,
};

verus! {

/// The two sides as the engine sees them.
pub struct World {
    /// What the store says of the remote root.
    pub root_kind: Seq<char>,
    /// The remote tree as a pull reads it: the entries of every remote
    /// directory, by its path. A path that is not among them cannot be
    /// listed.
    pub remote_dirs: Map<Seq<char>, Seq<Entry>>,
    /// The local tree as a push reads it: the names in every local
    /// directory, by its path. A path is a directory exactly when it is
    /// among them.
    pub local_dirs: Map<Seq<char>, Seq<Seq<char>>>,
    /// The local paths that exist, as a pull finds them.
    pub local: Set<Seq<char>>,
    /// The remote paths that exist, as a push finds them.
    pub stored: Set<Seq<char>>,
    /// The files whose transfer breaks off, by the path they are read
    /// from. The far side has the file all the same: it is created, or
    /// declared, before the first byte moves.
    pub broken: Set<Seq<char>>,
    /// The paths of which no question is answered: to ask whether one
    /// exists, or whether it is a directory, fails.
    pub silent: Set<Seq<char>>,
}

/// What the world answers to an operation.
pub open spec fn answer(world: World, due: ActionView) -> EventView {
    match due {
        ActionView::Stat { remote } => EventView::Properties { kind: world.root_kind },
        ActionView::ListRemote { remote } => if world.remote_dirs.dom().contains(remote) {
            EventView::Listing { entries: world.remote_dirs[remote] }
        } else {
            EventView::Failed
        },
        ActionView::LocalExists { local } => if world.silent.contains(local) {
            EventView::Failed
        } else {
            EventView::Flag { yes: world.local.contains(local) }
        },
        ActionView::CreateLocalDir { local } => EventView::Done,
        ActionView::Download { remote, local } => if world.broken.contains(remote) {
            EventView::Failed
        } else {
            EventView::Done
        },
        ActionView::ListLocal { local } => if world.local_dirs.dom().contains(local) {
            EventView::Names { names: world.local_dirs[local] }
        } else {
            EventView::Failed
        },
        ActionView::LocalIsDir { local } => if world.silent.contains(local) {
            EventView::Failed
        } else {
            EventView::Flag { yes: world.local_dirs.dom().contains(local) }
        },
        ActionView::RemoteExists { remote } => if world.silent.contains(remote) {
            EventView::Failed
        } else {
            EventView::Flag { yes: world.stored.contains(remote) }
        },
        ActionView::CreateRemoteFolder { remote } => EventView::Done,
        ActionView::Upload { local, remote } => if world.broken.contains(local) {
            EventView::Failed
        } else {
            EventView::Done
        },
        ActionView::Keep { path } => EventView::Done,
        ActionView::Finish { outcome } => EventView::Done,
    }
}

/// The world after an operation: what was created or transferred exists
/// on the far side from then on. Nothing else changes.
pub open spec fn effect(world: World, due: ActionView) -> World {
    match due {
        ActionView::CreateLocalDir { local } => World { local: world.local.insert(local), ..world },
        ActionView::Download { remote, local } => World {
            local: world.local.insert(local),
            ..world
        },
        ActionView::CreateRemoteFolder { remote } => World {
            stored: world.stored.insert(remote),
            ..world
        },
        ActionView::Upload { local, remote } => World {
            stored: world.stored.insert(remote),
            ..world
        },
        _ => world,
    }
}

/// The paths that exist on the side that entries are carried to.
pub open spec fn far_side(world: World, direction: Direction) -> Set<Seq<char>> {
    match direction {
        Direction::Pull => world.local,
        Direction::Push => world.stored,
    }
}

/// The engine and the world after `steps` operations were carried out and
/// answered.
pub open spec fn after(state: State, world: World, steps: nat) -> (State, World)
    decreases steps,
{
    if steps == 0 {
        (state, world)
    } else {
        let (engine, sides) = after(state, world, (steps - 1) as nat);
        (step(engine, answer(sides, action(engine))), effect(sides, action(engine)))
    }
}

/// True when two states differ in no more than their tally and in what is
/// being done with the entry in hand.
pub open spec fn alike(one: State, other: State) -> bool {
    &&& one.local_root == other.local_root
    &&& one.remote_root == other.remote_root
    &&& one.mode == other.mode
    &&& one.direction == other.direction
    &&& one.stack == other.stack
    &&& match one.stage {
        StageView::Apply { task, op } => other.stage matches StageView::Apply { task: same, op: _ }
            && same == task,
        _ => other.stage == one.stage,
    }
}

/// The world that a run left, with everything but the far sides as it
/// was.
pub open spec fn left_by(world: World, end: World) -> World {
    World { local: end.local, stored: end.stored, ..world }
}

/// A run keeps the engine sound, the roots and the mode as they were, and
/// the world as it was but for the far sides, which only gain.
pub proof fn lemma_after_sound(state: State, world: World, steps: nat)
    requires
        sound(state),
    ensures
        sound(after(state, world, steps).0),
        after(state, world, steps).0.mode == state.mode,
        after(state, world, steps).0.local_root == state.local_root,
        after(state, world, steps).0.remote_root == state.remote_root,
        left_by(after(state, world, steps).1, world) == world,
        world.local.subset_of(after(state, world, steps).1.local),
        world.stored.subset_of(after(state, world, steps).1.stored),
    decreases steps,
{
    if steps > 0 {
        lemma_after_sound(state, world, (steps - 1) as nat);
        let (engine, sides) = after(state, world, (steps - 1) as nat);
        lemma_step_sound(engine, answer(sides, action(engine)));
    }
}

/// A run taken in two parts.
pub proof fn lemma_after_split(state: State, world: World, steps: nat, more: nat)
    ensures
        after(state, world, steps + more) == after(
            after(state, world, steps).0,
            after(state, world, steps).1,
            more,
        ),
    decreases more,
{
    if more > 0 {
        lemma_after_split(state, world, steps, (more - 1) as nat);
        assert(steps + more - 1 == steps + (more - 1) as nat);
    }
}

/// What exists on a far side stays, and an engine that has ended stays as
/// it is.
pub proof fn lemma_after_grows(state: State, world: World, steps: nat, more: nat)
    ensures
        after(state, world, steps).1.local.subset_of(after(state, world, steps + more).1.local),
        after(state, world, steps).1.stored.subset_of(after(state, world, steps + more).1.stored),
        after(state, world, steps).0.stage is Done ==> after(state, world, steps + more).0 == after(
            state,
            world,
            steps,
        ).0,
    decreases more,
{
    if more > 0 {
        lemma_after_grows(state, world, steps, (more - 1) as nat);
        assert(steps + more - 1 == steps + (more - 1) as nat);
    }
}

/// What a run looks for, it leaves behind. Where a run that has ended
/// once asked whether the far side has an entry, and was answered, the far
/// side has the entry at the end: it was there, or it was created or
/// transferred right after the answer.
pub proof fn law_looked_for_is_left_behind(
    state: State,
    world: World,
    steps: nat,
    total: nat,
    task: TaskView,
)
    requires
        after(state, world, total).0.stage is Done,
        after(state, world, steps).0.stage == (StageView::Exists { task }),
        answer(after(state, world, steps).1, action(after(state, world, steps).0)) is Flag,
    ensures
        far_side(after(state, world, total).1, after(state, world, steps).0.direction).contains(
            far_child(after(state, world, steps).0, task),
        ),
{
    let (engine, sides) = after(state, world, steps);
    let path = far_child(engine, task);
    if steps >= total {
        lemma_after_grows(state, world, total, (steps - total) as nat);
        assert(total + (steps - total) as nat == steps);
    } else {
        let (next, then) = after(state, world, steps + 1);
        assert(steps + 1 - 1 == steps);
        assert(next == step(engine, answer(sides, action(engine))));
        assert(next.stage is Apply);
        if steps + 1 >= total {
            lemma_after_grows(state, world, total, (steps + 1 - total) as nat);
            assert(total + (steps + 1 - total) as nat == steps + 1);
        } else {
            if far_side(sides, engine.direction).contains(path) {
                lemma_after_grows(state, world, steps, (total - steps) as nat);
                assert(steps + (total - steps) as nat == total);
            } else {
                let (last, end) = after(state, world, steps + 2);
                assert(steps + 2 - 1 == steps + 1);
                assert(end == effect(then, action(next)));
                assert(far_side(end, engine.direction).contains(path));
                lemma_after_grows(state, world, steps + 2, (total - steps - 2) as nat);
                assert(steps + 2 + (total - steps - 2) as nat == total);
            }
        }
    }
}

/// A second run, begun in the world that a first run left, goes through
/// the same entries as the first and keeps every one of them.
proof fn lemma_second_run_keeps(dir: DirsyncView, world: World, total: nat, steps: nat)
    requires
        after(initial(dir), world, total).0.stage is Done,
    ensures
        alike(
            after(initial(dir), world, steps).0,
            after(initial(dir), left_by(world, after(initial(dir), world, total).1), steps).0,
        ),
        after(initial(dir), left_by(world, after(initial(dir), world, total).1), steps).1
            == left_by(world, after(initial(dir), world, total).1),
        after(
            initial(dir),
            left_by(world, after(initial(dir), world, total).1),
            steps,
        ).0.stage matches StageView::Apply { task, op } ==> op == Op::Keep,
    decreases steps,
{
    let left = left_by(world, after(initial(dir), world, total).1);
    if steps > 0 {
        let before = (steps - 1) as nat;
        lemma_second_run_keeps(dir, world, total, before);
        let (one, sides) = after(initial(dir), world, before);
        lemma_after_sound(initial(dir), world, before);
        match one.stage {
            StageView::Exists { task } => {
                if answer(sides, action(one)) is Flag {
                    law_looked_for_is_left_behind(initial(dir), world, before, total, task);
                }
            },
            _ => {},
        }
    }
}

/// Idempotence. The engine is run in one direction, against any tree and
/// any far side, until it has ended. It is then run again in the world
/// that the first run left: the same tree, and the far side with what the
/// first run added. At no point of the second run is anything due that
/// changes the far side: no download and no upload, no directory and no
/// folder to create. The second run leaves the world as it found it.
pub proof fn law_second_run_transfers_nothing(
    dir: DirsyncView,
    world: World,
    total: nat,
    steps: nat,
)
    requires
        mode_of(dir.sync_mode) != Some(SyncMode::Bidirectional),
        after(initial(dir), world, total).0.stage is Done,
    ensures
        !changes_far_side(
            action(after(initial(dir), after(initial(dir), world, total).1, steps).0),
        ),
        after(initial(dir), after(initial(dir), world, total).1, steps).1 == after(
            initial(dir),
            world,
            total,
        ).1,
{
    lemma_after_sound(initial(dir), world, total);
    assert(left_by(world, after(initial(dir), world, total).1) == after(
        initial(dir),
        world,
        total,
    ).1);
    lemma_second_run_keeps(dir, world, total, steps);
}

/// Skip on existing. What the far side has when a run begins is never
/// fetched, sent or created in that run, whatever it holds: at no point is
/// an operation due that changes the far side of that moment at such a
/// path.
pub proof fn law_present_is_never_replaced(
    dir: DirsyncView,
    world: World,
    steps: nat,
    path: Seq<char>,
)
    requires
        far_side(world, after(initial(dir), world, steps).0.direction).contains(path),
    ensures
        changes_far_side(action(after(initial(dir), world, steps).0)) ==> far_path(
            action(after(initial(dir), world, steps).0),
        ) != path,
{
    if steps > 0 {
        let (engine, sides) = after(initial(dir), world, (steps - 1) as nat);
        lemma_after_sound(initial(dir), world, (steps - 1) as nat);
    }
}

/// Nothing is created or transferred twice. In one run and one
/// direction, no two operations that change the far side are about the
/// same path: what was fetched, sent or created once is there from then
/// on, and what is there is kept.
pub proof fn law_changed_at_most_once(dir: DirsyncView, world: World, earlier: nat, later: nat)
    requires
        earlier < later,
        changes_far_side(action(after(initial(dir), world, earlier).0)),
        changes_far_side(action(after(initial(dir), world, later).0)),
        after(initial(dir), world, earlier).0.direction == after(
            initial(dir),
            world,
            later,
        ).0.direction,
    ensures
        far_path(action(after(initial(dir), world, earlier).0)) != far_path(
            action(after(initial(dir), world, later).0),
        ),
{
    let (first, sides) = after(initial(dir), world, earlier);
    let (asking, then) = after(initial(dir), world, (later - 1) as nat);
    let (second, end) = after(initial(dir), world, later);
    let path = far_path(action(first));
    assert(second == step(asking, answer(then, action(asking))));
    law_change_only_when_absent(asking, answer(then, action(asking)));
    if later == earlier + 1 {
        assert(asking == first);
    } else {
        let (next, grown) = after(initial(dir), world, earlier + 1);
        assert(earlier + 1 - 1 == earlier);
        assert(grown == effect(sides, action(first)));
        assert(far_side(grown, first.direction).contains(path));
        lemma_after_grows(initial(dir), world, earlier + 1, (later - earlier - 2) as nat);
        assert(earlier + 1 + (later - earlier - 2) as nat == later - 1);
        assert(far_side(then, first.direction).contains(path));
    }
}

} // verus!
