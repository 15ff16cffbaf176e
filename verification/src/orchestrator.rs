//! Bringing every required directory into place, one after the other.
//!
//! The table is worked through in its order. The first failure ends the run:
//! the entries after it are not touched.

use vstd::prelude::*;
use crate::error::MountError;
use crate::executor::{
    begin_mount, mount_tmpfs, next_step, Action, ActionView, Event, EventView, Phase, PhaseView,
    Step, StepView,
};
use crate::table::{MountSpecView, MountTable};

verus! {

/// Where a run stands: the entry in hand and the operation that is outstanding
/// for it.
#[derive(Debug, PartialEq, Eq)]
pub struct Progress {
    pub index: usize,
    pub phase: Phase,
}

/// What a `Progress` stands for in contracts.
pub struct ProgressView {
    pub index: int,
    pub phase: PhaseView,
}

impl View for Progress {
    type V = ProgressView;

    open spec fn view(&self) -> ProgressView {
        ProgressView { index: self.index as int, phase: self.phase@ }
    }
}

/// What follows an event in a run: another operation, or the run's result.
#[derive(Debug, PartialEq, Eq)]
pub enum Turn {
    Next(Progress, Action),
    Done(Result<(), MountError>),
}

/// What a `Turn` stands for in contracts.
pub enum TurnView {
    Next(ProgressView, ActionView),
    Done(Result<(), Seq<char>>),
}

impl View for Turn {
    type V = TurnView;

    open spec fn view(&self) -> TurnView {
        match self {
            Turn::Next(progress, action) => TurnView::Next(progress@, action@),
            Turn::Done(Ok(_)) => TurnView::Done(Ok(())),
            Turn::Done(Err(error)) => TurnView::Done(Err(error@)),
        }
    }
}

/// The turn that takes up the entry at `index`: its first step, or success
/// where the table has no such entry.
pub open spec fn enter(table: Seq<MountSpecView>, index: int) -> TurnView {
    if 0 <= index < table.len() {
        TurnView::Next(
            ProgressView { index, phase: PhaseView::Inspecting },
            ActionView::ReadMounts { path: table[index].path },
        )
    } else {
        TurnView::Done(Ok(()))
    }
}

/// The turn that follows `event` at `progress`.
///
/// The entry in hand takes its next step. When it is done, the next entry is
/// taken up; when it has failed, the run has failed with its error.
pub open spec fn next_turn(
    table: Seq<MountSpecView>,
    progress: ProgressView,
    event: EventView,
) -> TurnView {
    if 0 <= progress.index < table.len() {
        match next_step(table[progress.index], progress.phase, event) {
            StepView::Next(phase, action) => TurnView::Next(
                ProgressView { index: progress.index, phase },
                action,
            ),
            StepView::Done(Ok(_)) => enter(table, progress.index + 1),
            StepView::Done(Err(message)) => TurnView::Done(Err(message)),
        }
    } else {
        TurnView::Done(Ok(()))
    }
}

/// Takes up the entry at `index`.
fn enter_entry(table: &MountTable, index: usize) -> (turn: Turn)
    ensures
        turn@ == enter(table@, index as int),
{
    match table.get(index) {
        Some(cfg) => match begin_mount(cfg) {
            Step::Next(phase, action) => Turn::Next(Progress { index, phase }, action),
            Step::Done(result) => Turn::Done(result),
        },
        None => Turn::Done(Ok(())),
    }
}

/// Begins a run over `table`: asks for the first operation of its first entry.
/// An empty table is done at once.
pub fn begin_run(table: &MountTable) -> (turn: Turn)
    ensures
        turn@ == enter(table@, 0),
{
    enter_entry(table, 0)
}

/// Decides what follows `event`, the end of the operation that was outstanding
/// at `progress`, in a run over `table`.
pub fn mount_essential_tmpfs(table: &MountTable, progress: Progress, event: Event) -> (turn: Turn)
    ensures
        turn@ == next_turn(table@, progress@, event@),
{
    let index = progress.index;
    let entries = table.len();
    match table.get(index) {
        Some(cfg) => {
            assert(index < entries);
            match mount_tmpfs(cfg, progress.phase, event) {
                Step::Next(phase, action) => Turn::Next(Progress { index, phase }, action),
                Step::Done(Ok(_)) => enter_entry(table, index + 1),
                Step::Done(Err(error)) => Turn::Done(Err(error)),
            }
        },
        None => Turn::Done(Ok(())),
    }
}

} // verus!
