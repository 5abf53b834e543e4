//! Records derived from the version-control tool's output.

use vstd::prelude::*;

verus! {

pub open spec fn opt_str(o: Option<String>) -> Option<Seq<char>> {
    match o {
        Some(s) => Some(s@),
        None => None,
    }
}

/// One checkout directory, as the worktree listing reports it.
#[derive(Debug, Clone)]
pub struct Worktree {
    pub path: String,
    /// Absent when the checkout is on a detached HEAD.
    pub branch: Option<String>,
    pub head: String,
    pub is_bare: bool,
    pub is_locked: bool,
    pub lock_reason: Option<String>,
    pub is_prunable: bool,
}

pub struct WorktreeView {
    pub path: Seq<char>,
    pub branch: Option<Seq<char>>,
    pub head: Seq<char>,
    pub is_bare: bool,
    pub is_locked: bool,
    pub lock_reason: Option<Seq<char>>,
    pub is_prunable: bool,
}

impl View for Worktree {
    type V = WorktreeView;

    open spec fn view(&self) -> WorktreeView {
        WorktreeView {
            path: self.path@,
            branch: opt_str(self.branch),
            head: self.head@,
            is_bare: self.is_bare,
            is_locked: self.is_locked,
            lock_reason: opt_str(self.lock_reason),
            is_prunable: self.is_prunable,
        }
    }
}

pub open spec fn worktree_views(v: Seq<Worktree>) -> Seq<WorktreeView> {
    v.map_values(|w: Worktree| w@)
}

/// One local branch, as the branch listing reports it.
#[derive(Debug, Clone)]
pub struct Branch {
    pub name: String,
    pub upstream: Option<String>,
    pub is_head: bool,
    /// The upstream ref was deleted on the remote.
    pub gone: bool,
}

pub struct BranchView {
    pub name: Seq<char>,
    pub upstream: Option<Seq<char>>,
    pub is_head: bool,
    pub gone: bool,
}

impl View for Branch {
    type V = BranchView;

    open spec fn view(&self) -> BranchView {
        BranchView {
            name: self.name@,
            upstream: opt_str(self.upstream),
            is_head: self.is_head,
            gone: self.gone,
        }
    }
}

pub open spec fn branch_views(v: Seq<Branch>) -> Seq<BranchView> {
    v.map_values(|b: Branch| b@)
}

#[derive(Debug, Clone, Copy, PartialEq, Eq, Structural)]
pub enum MergeStatus {
    Merged,
    NotMerged,
    Unknown,
}

/// What one run of an external program reported.
#[derive(Debug)]
pub struct CommandOutput {
    pub stdout: String,
    pub stderr: String,
    pub status: i32,
}

impl CommandOutput {
    pub fn success(&self) -> (r: bool)
        ensures
            r == (self.status == 0),
    {
        self.status == 0
    }
}

} // verus!
