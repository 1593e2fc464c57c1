//! Vendoring of remote subdirectories through isolated worktrees: spec
//! parsing, the patch registry, worktree naming, and the decision logic of
//! the sync, push and status operations.
pub mod crossfile;
pub mod error;
pub mod patch_spec;
pub mod paths;
pub mod push;
pub mod registry;
pub mod remotes;
pub mod status;
pub mod sync;
pub mod text;
pub mod worktree;
