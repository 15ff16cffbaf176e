//! The system as a run sees it, and what a run does to it.
//!
//! A run reads two things of the system and changes three. This module states
//! them as a model and replays a run against it, so that what a whole run
//! achieves can be stated and proved.

use vstd::prelude::*;
use crate::executor::{shows_tmpfs, ActionView, EventView};
use crate::orchestrator::{enter, next_turn, TurnView};
use crate::table::MountSpecView;

verus! {

/// The part of the system that a run reads and changes.
pub struct World {
    /// The directories that are backed by tmpfs.
    pub tmpfs: Set<Seq<char>>,
    /// The directories that exist.
    pub dirs: Set<Seq<char>>,
    /// The permission bits, where they are known.
    pub modes: Map<Seq<char>, u32>,
}

/// The directory that an operation is about.
pub open spec fn target(action: ActionView) -> Seq<char> {
    match action {
        ActionView::ReadMounts { path } => path,
        ActionView::CheckDir { path } => path,
        ActionView::CreateDir { path } => path,
        ActionView::Mount { path } => path,
        ActionView::DumpMounts { path } => path,
        ActionView::SetPermissions { path, mode } => path,
    }
}

/// Whether an operation changes the system when it succeeds.
pub open spec fn changes_system(action: ActionView) -> bool {
    action is CreateDir || action is Mount || action is SetPermissions
}

/// The system after `action` has ended with `event`.
///
/// A created directory exists. A mount backs its directory by tmpfs, and the
/// fresh filesystem comes with permission bits of its own, whatever the
/// directory had. Permission bits that were set are those of the directory.
/// An operation that failed, and one that only reads, changes nothing.
pub open spec fn after(world: World, action: ActionView, event: EventView) -> World {
    match (action, event) {
        (ActionView::CreateDir { path }, EventView::Finished(Ok(_))) => World {
            dirs: world.dirs.insert(path),
            ..world
        },
        (ActionView::Mount { path }, EventView::Finished(Ok(_))) => World {
            tmpfs: world.tmpfs.insert(path),
            modes: world.modes.remove(path),
            ..world
        },
        (ActionView::SetPermissions { path, mode }, EventView::Finished(Ok(_))) => World {
            modes: world.modes.insert(path, mode),
            ..world
        },
        _ => world,
    }
}

/// Whether `event` can be the end of `action` in `world`.
///
/// The mount list, where it can be read, shows no directory as tmpfs that is
/// not; it may show less than there is, and it may be unreadable. The check for
/// a directory tells what is the case. The other operations succeed or fail.
pub open spec fn faithful(world: World, action: ActionView, event: EventView) -> bool {
    match action {
        ActionView::ReadMounts { path } => event matches EventView::Mounts(mounts) && (
        shows_tmpfs(mounts, path) ==> world.tmpfs.contains(path)),
        ActionView::CheckDir { path } => event == EventView::DirExists(world.dirs.contains(path)),
        ActionView::DumpMounts { path } => event is Mounts,
        _ => event is Finished,
    }
}

/// Whether `event` can be the end of `action` in `world` and, where it is a
/// reading of the mount list, the list was readable and complete.
pub open spec fn exact(world: World, action: ActionView, event: EventView) -> bool {
    faithful(world, action, event) && match action {
        ActionView::ReadMounts { path } => event matches EventView::Mounts(mounts) && (
        shows_tmpfs(mounts, path) <==> world.tmpfs.contains(path)),
        _ => true,
    }
}

/// Where a run stands after some events.
pub struct Outcome {
    /// The turn that the last event led to.
    pub turn: TurnView,
    /// The system as the operations so far have left it.
    pub world: World,
    /// The operations that were performed, in their order.
    pub performed: Seq<ActionView>,
}

/// The run over `table` that begins in `world` and is told `events`, one for
/// each operation it asks for. Events that come after the run's end are not
/// looked at.
pub open spec fn run(table: Seq<MountSpecView>, world: World, events: Seq<EventView>) -> Outcome
    decreases events.len(),
{
    if events.len() == 0 {
        Outcome { turn: enter(table, 0), world, performed: Seq::empty() }
    } else {
        let before = run(table, world, events.drop_last());
        match before.turn {
            TurnView::Next(progress, action) => Outcome {
                turn: next_turn(table, progress, events.last()),
                world: after(before.world, action, events.last()),
                performed: before.performed.push(action),
            },
            TurnView::Done(_) => before,
        }
    }
}

/// Whether each of `events` can be the end of the operation that the run asked
/// for, in the system as it was then.
pub open spec fn faithful_run(
    table: Seq<MountSpecView>,
    world: World,
    events: Seq<EventView>,
) -> bool
    decreases events.len(),
{
    events.len() == 0 || {
        let before = run(table, world, events.drop_last());
        &&& faithful_run(table, world, events.drop_last())
        &&& match before.turn {
            TurnView::Next(_, action) => faithful(before.world, action, events.last()),
            TurnView::Done(_) => true,
        }
    }
}

/// As `faithful_run`, with a mount list that is readable and complete each
/// time it is read.
pub open spec fn exact_run(table: Seq<MountSpecView>, world: World, events: Seq<EventView>) -> bool
    decreases events.len(),
{
    events.len() == 0 || {
        let before = run(table, world, events.drop_last());
        &&& exact_run(table, world, events.drop_last())
        &&& match before.turn {
            TurnView::Next(_, action) => exact(before.world, action, events.last()),
            TurnView::Done(_) => true,
        }
    }
}

/// Whether the directory of `cfg` is as required: it exists, it is backed by
/// tmpfs, and its permission bits are those of `cfg`.
pub open spec fn in_place(world: World, cfg: MountSpecView) -> bool {
    &&& world.dirs.contains(cfg.path)
    &&& world.tmpfs.contains(cfg.path)
    &&& world.modes.contains_key(cfg.path)
    &&& world.modes[cfg.path] == cfg.mode
}

/// Whether every directory of `table` is as required.
pub open spec fn all_in_place(world: World, table: Seq<MountSpecView>) -> bool {
    forall|i: int| 0 <= i < table.len() ==> in_place(world, #[trigger] table[i])
}

/// Whether every directory of `table` that is backed by tmpfs is as required
/// in full.
pub open spec fn mounted_in_place(world: World, table: Seq<MountSpecView>) -> bool {
    forall|i: int|
        0 <= i < table.len() && world.tmpfs.contains((#[trigger] table[i]).path) ==> in_place(
            world,
            table[i],
        )
}

/// Whether `table` gives each directory one mode, however often it lists it.
pub open spec fn one_mode_each(table: Seq<MountSpecView>) -> bool {
    forall|i: int, j: int|
        0 <= i < table.len() && 0 <= j < table.len() && (#[trigger] table[i]).path == (
        #[trigger] table[j]).path ==> table[i].mode == table[j].mode
}

} // verus!
