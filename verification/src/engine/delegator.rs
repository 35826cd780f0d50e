//! Carrying out a task's operations on a system: over SSH for a remote
//! system, directly on this machine for a local one. The operations themselves
//! are I/O done by the runtime; what is decided here is how their failures are
//! classified and how a walk along a path's ancestors proceeds.

pub mod error;
pub mod executor;
pub mod host;
pub mod operator;
pub mod ssh;

use vstd::prelude::*;

verus! {

/// The size of the buffer that file transfers copy through.
pub const TRANSFER_BUFFER_SIZE: usize = 64 * 1024 * 1024;

/// What looking up one ancestor of a path found.
#[derive(Debug, Clone, Copy, PartialEq, Eq, Structural)]
pub enum AncestorStat {
    /// A directory.
    Directory,
    /// Something that is not a directory.
    NotDirectory,
    /// Nothing.
    Missing,
    /// The lookup failed otherwise.
    Failed,
}

/// What a walk along a path's ancestors, from the outermost down, does next.
#[derive(Debug, Clone, Copy, PartialEq, Eq, Structural)]
pub enum WalkStep {
    /// Go on with the next ancestor.
    Continue,
    /// Create this ancestor as a directory, then go on.
    Create,
    /// Stop: the rest of the path does not exist yet.
    Stop,
    /// Fail: this ancestor is not a directory.
    NotADirectory,
    /// Fail with the lookup's own error.
    Fail,
}

/// Creating a directory: missing ancestors are created, existing ones must be
/// directories.
pub open spec fn creation_step_spec(stat: AncestorStat) -> WalkStep {
    match stat {
        AncestorStat::Directory => WalkStep::Continue,
        AncestorStat::NotDirectory => WalkStep::NotADirectory,
        AncestorStat::Missing => WalkStep::Create,
        AncestorStat::Failed => WalkStep::Fail,
    }
}

/// Checking that a directory could exist: every existing ancestor must be a
/// directory; the walk stops at the first missing one.
pub open spec fn validity_step_spec(stat: AncestorStat) -> WalkStep {
    match stat {
        AncestorStat::Directory => WalkStep::Continue,
        AncestorStat::NotDirectory => WalkStep::NotADirectory,
        AncestorStat::Missing => WalkStep::Stop,
        AncestorStat::Failed => WalkStep::Fail,
    }
}

/// The next step of creating a directory, given what an ancestor is.
pub fn creation_step(stat: AncestorStat) -> (step: WalkStep)
    ensures
        step == creation_step_spec(stat),
{
    match stat {
        AncestorStat::Directory => WalkStep::Continue,
        AncestorStat::NotDirectory => WalkStep::NotADirectory,
        AncestorStat::Missing => WalkStep::Create,
        AncestorStat::Failed => WalkStep::Fail,
    }
}

/// The next step of checking a directory's validity, given what an ancestor
/// is.
pub fn validity_step(stat: AncestorStat) -> (step: WalkStep)
    ensures
        step == validity_step_spec(stat),
{
    match stat {
        AncestorStat::Directory => WalkStep::Continue,
        AncestorStat::NotDirectory => WalkStep::NotADirectory,
        AncestorStat::Missing => WalkStep::Stop,
        AncestorStat::Failed => WalkStep::Fail,
    }
}

/// Whether a file may be written at a path, once its parent directory is
/// valid, given what is there now.
#[derive(Debug, Clone, Copy, PartialEq, Eq, Structural)]
pub enum FileCheck {
    Valid,
    IsADirectory,
    Fail,
}

/// A file is valid where nothing is or where something other than a directory
/// is.
pub fn file_check(stat: AncestorStat) -> (check: FileCheck)
    ensures
        check == match stat {
            AncestorStat::Directory => FileCheck::IsADirectory,
            AncestorStat::NotDirectory => FileCheck::Valid,
            AncestorStat::Missing => FileCheck::Valid,
            AncestorStat::Failed => FileCheck::Fail,
        },
{
    match stat {
        AncestorStat::Directory => FileCheck::IsADirectory,
        AncestorStat::NotDirectory => FileCheck::Valid,
        AncestorStat::Missing => FileCheck::Valid,
        AncestorStat::Failed => FileCheck::Fail,
    }
}

} // verus!
