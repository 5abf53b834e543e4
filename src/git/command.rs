//! The fixed set of version-control commands, and the exact arguments each
//! one is issued with.

use vstd::prelude::*;

use crate::text::string_views;

verus! {

/// One operation of the version-control executable.
#[derive(Debug, Clone)]
pub enum GitCommand {
    /// Is the directory inside a repository?
    GitDir,
    ShowToplevel,
    CommonDir,
    CurrentBranch,
    WorktreeList,
    /// Create a worktree on a new branch, from `source` when given.
    WorktreeAdd { path: String, branch: String, source: Option<String> },
    WorktreeRemove { path: String, force: bool },
    WorktreeLock { path: String, reason: Option<String> },
    WorktreeUnlock { path: String },
    BranchList,
    BranchDelete { name: String, force: bool },
    /// Is `branch` an ancestor of `target`?
    IsAncestor { branch: String, target: String },
    StashPush { message: String },
    StashPop,
    Status,
    /// Initialize submodules recursively inside the worktree at `path`.
    SubmoduleInit { path: String },
    /// Resolve the remote-tracking default branch ref.
    RemoteHead,
    VerifyRef { name: String },
}

/// The format of one line of the branch listing: name, upstream, head
/// marker and tracking status, separated by tabs.
pub const BRANCH_FORMAT: &'static str = "--format=%(refname:short)\t%(upstream:short)\t%(HEAD)\t%(upstream:track)";

/// The arguments of a command, after the repository selection.
pub open spec fn command_words(c: GitCommand) -> Seq<Seq<char>> {
    match c {
        GitCommand::GitDir => seq!["rev-parse"@, "--git-dir"@],
        GitCommand::ShowToplevel => seq!["rev-parse"@, "--show-toplevel"@],
        GitCommand::CommonDir => seq!["rev-parse"@, "--git-common-dir"@],
        GitCommand::CurrentBranch => seq!["symbolic-ref"@, "--short"@, "HEAD"@],
        GitCommand::WorktreeList => seq!["worktree"@, "list"@, "--porcelain"@],
        GitCommand::WorktreeAdd { path, branch, source } => {
            let base = seq!["worktree"@, "add"@, "-b"@, branch@, path@];
            match source {
                Some(s) => base.push(s@),
                None => base,
            }
        },
        GitCommand::WorktreeRemove { path, force } => {
            let base = seq!["worktree"@, "remove"@, path@];
            if force {
                base.push("--force"@)
            } else {
                base
            }
        },
        GitCommand::WorktreeLock { path, reason } => {
            let base = seq!["worktree"@, "lock"@, path@];
            match reason {
                Some(r) => base + seq!["--reason"@, r@],
                None => base,
            }
        },
        GitCommand::WorktreeUnlock { path } => seq!["worktree"@, "unlock"@, path@],
        GitCommand::BranchList => seq!["for-each-ref"@, BRANCH_FORMAT@, "refs/heads/"@],
        GitCommand::BranchDelete { name, force } => seq![
            "branch"@,
            if force {
                "-D"@
            } else {
                "-d"@
            },
            name@,
        ],
        GitCommand::IsAncestor { branch, target } => seq!["merge-base"@, "--is-ancestor"@, branch@, target@],
        GitCommand::StashPush { message } => seq!["stash"@, "push"@, "-m"@, message@],
        GitCommand::StashPop => seq!["stash"@, "pop"@],
        GitCommand::Status => seq!["status"@, "--porcelain"@],
        GitCommand::SubmoduleInit { path } => seq![
            "-C"@,
            path@,
            "submodule"@,
            "update"@,
            "--init"@,
            "--recursive"@,
        ],
        GitCommand::RemoteHead => seq!["symbolic-ref"@, "refs/remotes/origin/HEAD"@],
        GitCommand::VerifyRef { name } => seq!["rev-parse"@, "--verify"@, name@],
    }
}

fn arg(s: &str) -> (r: String)
    ensures
        r@ == s@,
{
    String::from_str(s)
}

/// The arguments of `c`.
pub fn command_args(c: &GitCommand) -> (r: Vec<String>)
    ensures
        string_views(r@) == command_words(*c),
{
    let r = match c {
        GitCommand::GitDir => vec![arg("rev-parse"), arg("--git-dir")],
        GitCommand::ShowToplevel => vec![arg("rev-parse"), arg("--show-toplevel")],
        GitCommand::CommonDir => vec![arg("rev-parse"), arg("--git-common-dir")],
        GitCommand::CurrentBranch => vec![arg("symbolic-ref"), arg("--short"), arg("HEAD")],
        GitCommand::WorktreeList => vec![arg("worktree"), arg("list"), arg("--porcelain")],
        GitCommand::WorktreeAdd { path, branch, source } => {
            let mut v = vec![arg("worktree"), arg("add"), arg("-b"), branch.clone(), path.clone()];
            if let Some(s) = source {
                v.push(s.clone());
            }
            v
        },
        GitCommand::WorktreeRemove { path, force } => {
            let mut v = vec![arg("worktree"), arg("remove"), path.clone()];
            if *force {
                v.push(arg("--force"));
            }
            v
        },
        GitCommand::WorktreeLock { path, reason } => {
            let mut v = vec![arg("worktree"), arg("lock"), path.clone()];
            if let Some(r) = reason {
                v.push(arg("--reason"));
                v.push(r.clone());
            }
            v
        },
        GitCommand::WorktreeUnlock { path } => vec![arg("worktree"), arg("unlock"), path.clone()],
        GitCommand::BranchList => vec![arg("for-each-ref"), arg(BRANCH_FORMAT), arg("refs/heads/")],
        GitCommand::BranchDelete { name, force } => {
            let flag = if *force {
                arg("-D")
            } else {
                arg("-d")
            };
            vec![arg("branch"), flag, name.clone()]
        },
        GitCommand::IsAncestor { branch, target } => vec![
            arg("merge-base"),
            arg("--is-ancestor"),
            branch.clone(),
            target.clone(),
        ],
        GitCommand::StashPush { message } => vec![arg("stash"), arg("push"), arg("-m"), message.clone()],
        GitCommand::StashPop => vec![arg("stash"), arg("pop")],
        GitCommand::Status => vec![arg("status"), arg("--porcelain")],
        GitCommand::SubmoduleInit { path } => vec![
            arg("-C"),
            path.clone(),
            arg("submodule"),
            arg("update"),
            arg("--init"),
            arg("--recursive"),
        ],
        GitCommand::RemoteHead => vec![arg("symbolic-ref"), arg("refs/remotes/origin/HEAD")],
        GitCommand::VerifyRef { name } => vec![arg("rev-parse"), arg("--verify"), name.clone()],
    };
    assert(string_views(r@) == command_words(*c));
    r
}

} // verus!
