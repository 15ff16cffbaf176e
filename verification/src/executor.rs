//! Bringing one required directory into place.
//!
//! The work alternates between operations on the system and decisions. The
//! decisions are made here: given the operation that is outstanding and how it
//! ended, `mount_tmpfs` names the next operation or the result. The caller
//! performs each operation and reports back.

use vstd::prelude::*;
use crate::error::{create_failure, mount_failure, permission_failure, MountError};
use crate::inspect::{is_mounted, is_tmpfs, tmpfs_name};
use crate::table::{MountSpec, MountSpecView};

verus! {

/// An operation on the system that the caller is asked to perform.
#[derive(Debug, PartialEq, Eq)]
pub enum Action {
    /// Read the kernel's mount list, to see whether the directory is mounted.
    ReadMounts { path: String },
    /// Tell whether the directory exists.
    CheckDir { path: String },
    /// Create the directory and the parents it lacks.
    CreateDir { path: String },
    /// Mount tmpfs on the directory, with no flags and no options.
    Mount { path: String },
    /// Read the kernel's mount list and log it, after the mount on the
    /// directory has failed.
    DumpMounts { path: String },
    /// Set the permission bits of the directory.
    SetPermissions { path: String, mode: u32 },
}

/// What an `Action` stands for in contracts.
pub enum ActionView {
    ReadMounts { path: Seq<char> },
    CheckDir { path: Seq<char> },
    CreateDir { path: Seq<char> },
    Mount { path: Seq<char> },
    DumpMounts { path: Seq<char> },
    SetPermissions { path: Seq<char>, mode: u32 },
}

impl View for Action {
    type V = ActionView;

    open spec fn view(&self) -> ActionView {
        match self {
            Action::ReadMounts { path } => ActionView::ReadMounts { path: path@ },
            Action::CheckDir { path } => ActionView::CheckDir { path: path@ },
            Action::CreateDir { path } => ActionView::CreateDir { path: path@ },
            Action::Mount { path } => ActionView::Mount { path: path@ },
            Action::DumpMounts { path } => ActionView::DumpMounts { path: path@ },
            Action::SetPermissions { path, mode } => ActionView::SetPermissions {
                path: path@,
                mode: *mode,
            },
        }
    }
}

/// How an operation ended.
#[derive(Debug, PartialEq, Eq)]
pub enum Event {
    /// The mount list as text, or `None` where it could not be read.
    Mounts(Option<String>),
    /// Whether the directory exists.
    DirExists(bool),
    /// The operation succeeded, or failed with the cause given.
    Finished(Result<(), String>),
}

/// What an `Event` stands for in contracts.
pub enum EventView {
    Mounts(Option<Seq<char>>),
    DirExists(bool),
    Finished(Result<(), Seq<char>>),
}

impl View for Event {
    type V = EventView;

    open spec fn view(&self) -> EventView {
        match self {
            Event::Mounts(Some(text)) => EventView::Mounts(Some(text@)),
            Event::Mounts(None) => EventView::Mounts(None),
            Event::DirExists(exists) => EventView::DirExists(*exists),
            Event::Finished(Ok(_)) => EventView::Finished(Ok(())),
            Event::Finished(Err(cause)) => EventView::Finished(Err(cause@)),
        }
    }
}

/// The operation that is outstanding for the directory in hand.
#[derive(Debug, PartialEq, Eq)]
pub enum Phase {
    /// The mount list is being read for the check.
    Inspecting,
    /// The directory's existence is being checked.
    CheckingDir,
    /// The directory is being created.
    CreatingDir,
    /// The mount is being made.
    Mounting,
    /// The mount failed with the error held here; the mount list is being
    /// logged.
    Diagnosing(MountError),
    /// The permission bits are being set.
    SettingMode,
}

/// What a `Phase` stands for in contracts.
pub enum PhaseView {
    Inspecting,
    CheckingDir,
    CreatingDir,
    Mounting,
    Diagnosing(Seq<char>),
    SettingMode,
}

impl View for Phase {
    type V = PhaseView;

    open spec fn view(&self) -> PhaseView {
        match self {
            Phase::Inspecting => PhaseView::Inspecting,
            Phase::CheckingDir => PhaseView::CheckingDir,
            Phase::CreatingDir => PhaseView::CreatingDir,
            Phase::Mounting => PhaseView::Mounting,
            Phase::Diagnosing(error) => PhaseView::Diagnosing(error@),
            Phase::SettingMode => PhaseView::SettingMode,
        }
    }
}

/// What follows an event: another operation, or the result for the directory.
#[derive(Debug, PartialEq, Eq)]
pub enum Step {
    Next(Phase, Action),
    Done(Result<(), MountError>),
}

/// What a `Step` stands for in contracts.
pub enum StepView {
    Next(PhaseView, ActionView),
    Done(Result<(), Seq<char>>),
}

impl View for Step {
    type V = StepView;

    open spec fn view(&self) -> StepView {
        match self {
            Step::Next(phase, action) => StepView::Next(phase@, action@),
            Step::Done(Ok(_)) => StepView::Done(Ok(())),
            Step::Done(Err(error)) => StepView::Done(Err(error@)),
        }
    }
}

/// Whether `event` is an answer to the operation that is outstanding in
/// `phase`.
pub open spec fn answers(phase: PhaseView, event: EventView) -> bool {
    match phase {
        PhaseView::Inspecting | PhaseView::Diagnosing(_) => event is Mounts,
        PhaseView::CheckingDir => event is DirExists,
        PhaseView::CreatingDir | PhaseView::Mounting | PhaseView::SettingMode => event is Finished,
    }
}

/// Whether what was read of the mount list shows `path` backed by tmpfs. A list
/// that could not be read shows nothing.
pub open spec fn shows_tmpfs(mounts: Option<Seq<char>>, path: Seq<char>) -> bool {
    match mounts {
        Some(text) => is_mounted(text, path, tmpfs_name()),
        None => false,
    }
}

/// The first step for the directory `cfg`: the check whether it is mounted
/// already.
pub open spec fn first_step(cfg: MountSpecView) -> StepView {
    StepView::Next(PhaseView::Inspecting, ActionView::ReadMounts { path: cfg.path })
}

/// The step that follows `event` in `phase`, for the directory `cfg`.
///
/// A directory that is mounted already needs nothing. Otherwise it is created
/// where it does not exist, then mounted, then given its permission bits. A
/// failure ends the work with its message; after a failed mount the mount list
/// is logged first, and however that read ends, the mount's failure is what is
/// reported.
pub open spec fn next_step(cfg: MountSpecView, phase: PhaseView, event: EventView) -> StepView {
    match (phase, event) {
        (PhaseView::Inspecting, EventView::Mounts(mounts)) => if shows_tmpfs(mounts, cfg.path) {
            StepView::Done(Ok(()))
        } else {
            StepView::Next(PhaseView::CheckingDir, ActionView::CheckDir { path: cfg.path })
        },
        (PhaseView::CheckingDir, EventView::DirExists(exists)) => if exists {
            StepView::Next(PhaseView::Mounting, ActionView::Mount { path: cfg.path })
        } else {
            StepView::Next(PhaseView::CreatingDir, ActionView::CreateDir { path: cfg.path })
        },
        (PhaseView::CreatingDir, EventView::Finished(Ok(_))) => StepView::Next(
            PhaseView::Mounting,
            ActionView::Mount { path: cfg.path },
        ),
        (PhaseView::CreatingDir, EventView::Finished(Err(cause))) => StepView::Done(
            Err(create_failure(cfg.path, cause)),
        ),
        (PhaseView::Mounting, EventView::Finished(Ok(_))) => StepView::Next(
            PhaseView::SettingMode,
            ActionView::SetPermissions { path: cfg.path, mode: cfg.mode },
        ),
        (PhaseView::Mounting, EventView::Finished(Err(cause))) => StepView::Next(
            PhaseView::Diagnosing(mount_failure(cfg.path, cause)),
            ActionView::DumpMounts { path: cfg.path },
        ),
        (PhaseView::Diagnosing(message), EventView::Mounts(_)) => StepView::Done(Err(message)),
        (PhaseView::SettingMode, EventView::Finished(Ok(_))) => StepView::Done(Ok(())),
        (PhaseView::SettingMode, EventView::Finished(Err(cause))) => StepView::Done(
            Err(permission_failure(cfg.path, cause)),
        ),
        _ => StepView::Next(phase, outstanding(cfg, phase)),
    }
}

/// The operation that is outstanding in `phase`.
pub open spec fn outstanding(cfg: MountSpecView, phase: PhaseView) -> ActionView {
    match phase {
        PhaseView::Inspecting => ActionView::ReadMounts { path: cfg.path },
        PhaseView::CheckingDir => ActionView::CheckDir { path: cfg.path },
        PhaseView::CreatingDir => ActionView::CreateDir { path: cfg.path },
        PhaseView::Mounting => ActionView::Mount { path: cfg.path },
        PhaseView::Diagnosing(_) => ActionView::DumpMounts { path: cfg.path },
        PhaseView::SettingMode => ActionView::SetPermissions { path: cfg.path, mode: cfg.mode },
    }
}

/// The operation that is outstanding in `phase`, for the directory `cfg`.
pub fn pending_action(cfg: &MountSpec, phase: &Phase) -> (action: Action)
    ensures
        action@ == outstanding(cfg@, phase@),
{
    match phase {
        Phase::Inspecting => Action::ReadMounts { path: cfg.path.clone() },
        Phase::CheckingDir => Action::CheckDir { path: cfg.path.clone() },
        Phase::CreatingDir => Action::CreateDir { path: cfg.path.clone() },
        Phase::Mounting => Action::Mount { path: cfg.path.clone() },
        Phase::Diagnosing(_) => Action::DumpMounts { path: cfg.path.clone() },
        Phase::SettingMode => Action::SetPermissions { path: cfg.path.clone(), mode: cfg.mode },
    }
}

/// Begins the work on the directory `cfg`: asks for the mount list.
pub fn begin_mount(cfg: &MountSpec) -> (step: Step)
    ensures
        step@ == first_step(cfg@),
{
    Step::Next(Phase::Inspecting, Action::ReadMounts { path: cfg.path.clone() })
}

/// Decides what follows `event`, the end of the operation that was outstanding
/// in `phase`, for the directory `cfg`. An event that is no answer to that
/// operation changes nothing: the operation is asked for again.
pub fn mount_tmpfs(cfg: &MountSpec, phase: Phase, event: Event) -> (step: Step)
    ensures
        step@ == next_step(cfg@, phase@, event@),
{
    let path = cfg.path.as_str();
    match (phase, event) {
        (Phase::Inspecting, Event::Mounts(mounts)) => {
            let found = match &mounts {
                Some(text) => is_tmpfs(Some(text.as_str()), path),
                None => is_tmpfs(None, path),
            };
            if found {
                Step::Done(Ok(()))
            } else {
                Step::Next(Phase::CheckingDir, Action::CheckDir { path: cfg.path.clone() })
            }
        },
        (Phase::CheckingDir, Event::DirExists(exists)) => {
            if exists {
                Step::Next(Phase::Mounting, Action::Mount { path: cfg.path.clone() })
            } else {
                Step::Next(Phase::CreatingDir, Action::CreateDir { path: cfg.path.clone() })
            }
        },
        (Phase::CreatingDir, Event::Finished(Ok(_))) => Step::Next(
            Phase::Mounting,
            Action::Mount { path: cfg.path.clone() },
        ),
        (Phase::CreatingDir, Event::Finished(Err(cause))) => Step::Done(
            Err(MountError::create(path, cause.as_str())),
        ),
        (Phase::Mounting, Event::Finished(Ok(_))) => Step::Next(
            Phase::SettingMode,
            Action::SetPermissions { path: cfg.path.clone(), mode: cfg.mode },
        ),
        (Phase::Mounting, Event::Finished(Err(cause))) => Step::Next(
            Phase::Diagnosing(MountError::mount(path, cause.as_str())),
            Action::DumpMounts { path: cfg.path.clone() },
        ),
        (Phase::Diagnosing(error), Event::Mounts(_)) => Step::Done(Err(error)),
        (Phase::SettingMode, Event::Finished(Ok(_))) => Step::Done(Ok(())),
        (Phase::SettingMode, Event::Finished(Err(cause))) => Step::Done(
            Err(MountError::permissions(path, cause.as_str())),
        ),
        (phase, _) => {
            let action = pending_action(cfg, &phase);
            Step::Next(phase, action)
        },
    }
}

} // verus!
