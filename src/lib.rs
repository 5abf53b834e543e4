//! Management of parallel checkouts (worktrees) of a repository: the state
//! read from the version-control tool's listings, the settings and their
//! merge, the symlink synchronizer, the force-level policy for removal, and
//! the commands that compose them through narrow interfaces to the tool, the
//! filesystem and the terminal.

pub mod error;
pub mod text;
pub mod path;
pub mod git;
pub mod config;
pub mod fs;
pub mod symlink;
pub mod hooks;
pub mod multiplexer;
pub mod cli;
pub mod commands;
pub mod result;
pub mod tui;
