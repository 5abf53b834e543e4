//! The command line's shape: the subcommands and their arguments.

use vstd::prelude::*;

verus! {

pub struct Cli {
    pub command: Commands,
}

pub enum Commands {
    /// Initialize the settings directory.
    Init,
    /// Create a worktree with its branch and symlinks.
    Add(AddArgs),
    /// List worktrees.
    List(ListArgs),
    /// Remove worktrees and their branches.
    Remove(RemoveArgs),
    /// Remove merged or upstream-gone worktrees.
    Clean(CleanArgs),
    /// Synchronize symlinks and submodules.
    Sync(SyncArgs),
    /// Select a worktree and open it in a terminal tab.
    Open,
    /// Interactive dashboard.
    Dashboard,
}

#[derive(Debug, Clone)]
pub struct AddArgs {
    /// Branch name for the new worktree.
    pub name: String,
    /// Base branch; the configured default when absent.
    pub source: Option<String>,
    /// Move uncommitted changes into the new worktree through the stash.
    pub carry: bool,
    pub sync: bool,
    pub file: Vec<String>,
    /// Lock the new worktree.
    pub lock: bool,
    /// Reason recorded with the lock.
    pub reason: Option<String>,
    pub init_submodules: bool,
    pub submodule_reference: bool,
}

#[derive(Debug, Clone)]
pub struct ListArgs {
    pub quiet: bool,
}

#[derive(Debug, Clone)]
pub struct RemoveArgs {
    pub branches: Vec<String>,
    /// How many times the force flag was given.
    pub force: u8,
}

#[derive(Debug, Clone)]
pub struct CleanArgs {
    /// Report the candidates without removing anything.
    pub check: bool,
}

#[derive(Debug, Clone)]
pub struct SyncArgs {
    pub all: bool,
    pub source: Option<String>,
}

} // verus!
