//! The error taxonomy of the library.
use vstd::prelude::*;

verus! {

/// What can go wrong while vendoring, syncing or pushing a patch.
#[derive(Debug, Clone, Copy, PartialEq, Eq, Structural)]
pub enum CrossError {
    /// A source-location string that does not name a remote and a path.
    InvalidSpec,
    /// The spec names a remote that is not registered.
    RemoteNotFound,
    /// The worktree of a patch is gone.
    WorktreeMissing,
    /// Replaying local commits on upstream stopped on a conflict.
    RebaseConflict,
    /// Restoring the checkpoint of local edits left unmerged files.
    StashRestoreConflict,
    /// No patch is registered at the given path.
    PatchNotFound,
    /// The persisted registry cannot be read back.
    CorruptRegistry,
    /// An external tool exited with a failure.
    SubprocessFailure,
}

} // verus!
