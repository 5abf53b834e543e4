//! The library's error type.

use vstd::prelude::*;
use vstd::string::StringExecFns;

verus! {

/// Everything that can make a command fail.
#[derive(Debug, Clone, PartialEq, Eq)]
pub enum OuError {
    NotGitRepository,
    AlreadyInitialized(String),
    WorktreeAlreadyExists(String),
    WorktreeNotFound(String),
    BranchNotFound(String),
    UncommittedChanges(String),
    /// The worktree's branch and the lock reason.
    WorktreeLocked(String, String),
    Config(String),
    GitVersionTooOld { required: String, found: String },
    Git(String),
    Io(String),
    Multiplexer(String),
    Symlink(String),
}

/// The message shown to the user for each error.
pub open spec fn message_spec(e: OuError) -> Seq<char> {
    match e {
        OuError::NotGitRepository => "not a git repository (or any of the parent directories)"@,
        OuError::AlreadyInitialized(p) => "already initialized: "@ + p@,
        OuError::WorktreeAlreadyExists(n) => "worktree '"@ + n@ + "' already exists"@,
        OuError::WorktreeNotFound(n) => "worktree '"@ + n@ + "' not found"@,
        OuError::BranchNotFound(n) => "branch '"@ + n@ + "' not found"@,
        OuError::UncommittedChanges(n) => "worktree '"@ + n@ + "' has uncommitted changes (use -f to force)"@,
        OuError::WorktreeLocked(n, r) => "worktree '"@ + n@ + "' is locked: "@ + r@ + " (use -ff to force)"@,
        OuError::Config(m) => "config error: "@ + m@,
        OuError::GitVersionTooOld { required, found } => "git version "@ + found@ + " is too old (requires "@
            + required@ + "+)"@,
        OuError::Git(m) => "git error: "@ + m@,
        OuError::Io(m) => "io error: "@ + m@,
        OuError::Multiplexer(m) => "multiplexer error: "@ + m@,
        OuError::Symlink(m) => "symlink error: "@ + m@,
    }
}

impl OuError {
    /// The message shown to the user.
    pub fn message(&self) -> (r: String)
        ensures
            r@ == message_spec(*self),
    {
        match self {
            OuError::NotGitRepository => {
                String::from_str("not a git repository (or any of the parent directories)")
            },
            OuError::AlreadyInitialized(p) => String::from_str("already initialized: ").concat(p.as_str()),
            OuError::WorktreeAlreadyExists(n) => String::from_str("worktree '").concat(n.as_str()).concat(
                "' already exists",
            ),
            OuError::WorktreeNotFound(n) => String::from_str("worktree '").concat(n.as_str()).concat(
                "' not found",
            ),
            OuError::BranchNotFound(n) => String::from_str("branch '").concat(n.as_str()).concat("' not found"),
            OuError::UncommittedChanges(n) => String::from_str("worktree '").concat(n.as_str()).concat(
                "' has uncommitted changes (use -f to force)",
            ),
            OuError::WorktreeLocked(n, r) => String::from_str("worktree '").concat(n.as_str()).concat(
                "' is locked: ",
            ).concat(r.as_str()).concat(" (use -ff to force)"),
            OuError::Config(m) => String::from_str("config error: ").concat(m.as_str()),
            OuError::GitVersionTooOld { required, found } => String::from_str("git version ").concat(
                found.as_str(),
            ).concat(" is too old (requires ").concat(required.as_str()).concat("+)"),
            OuError::Git(m) => String::from_str("git error: ").concat(m.as_str()),
            OuError::Io(m) => String::from_str("io error: ").concat(m.as_str()),
            OuError::Multiplexer(m) => String::from_str("multiplexer error: ").concat(m.as_str()),
            OuError::Symlink(m) => String::from_str("symlink error: ").concat(m.as_str()),
        }
    }
}

} // verus!
