//! The fixed set of version-control operations, issued through the executor interface.

use vstd::prelude::*;

use crate::error::OuError;
use crate::git::command::{command_args, command_words, GitCommand};
use crate::git::executor::GitExecutor;
use crate::git::parse::{branch_listing, parse_branch_list, parse_worktree_list, worktree_listing};
use crate::git::types::{opt_str, branch_views, worktree_views, Branch, CommandOutput, MergeStatus, Worktree};
use crate::path::{join, join_path};
use crate::text::{
    chars_of, contains_infix, has_infix, has_prefix, slice_of, string_of, string_views, trim, trimmed,
};

verus! {

/// The prefix of the remote-tracking default branch ref.
pub const REMOTE_HEAD_PREFIX: &'static str = "refs/remotes/origin/";

/// What the stash reports when there was nothing to save.
pub const NO_CHANGES_MARK: &'static str = "No local changes";

fn arg(s: &str) -> (r: String)
    ensures
        r@ == s@,
{
    String::from_str(s)
}

pub fn trim_str(s: &str) -> (r: String)
    ensures
        r@ == trim(s@),
{
    string_of(&trimmed(&chars_of(s)))
}

impl CommandOutput {
    /// The printed output of a run that succeeded, or else an error that
    /// carries its trimmed error output.
    pub fn into_result(self) -> (r: Result<String, OuError>)
        ensures
            self.status == 0 ==> (r matches Ok(s) && s@ == self.stdout@),
            self.status != 0 ==> (r matches Err(OuError::Git(m)) && m@ == trim(self.stderr@)),
    {
        if self.success() {
            Ok(self.stdout)
        } else {
            Err(OuError::Git(trim_str(self.stderr.as_str())))
        }
    }
}

pub open spec fn stash_saved_spec(stdout: Seq<char>) -> bool {
    !has_infix(stdout, NO_CHANGES_MARK@)
}

/// Whether a stash push saved anything, judged from what it printed.
pub fn stash_saved(stdout: &str) -> (r: bool)
    ensures
        r == stash_saved_spec(stdout@),
{
    !contains_infix(&chars_of(stdout), &chars_of(NO_CHANGES_MARK))
}

pub open spec fn remote_default_spec(stdout: Seq<char>) -> Option<Seq<char>> {
    let t = trim(stdout);
    if has_prefix(t, REMOTE_HEAD_PREFIX@) {
        Some(t.subrange(REMOTE_HEAD_PREFIX@.len() as int, t.len() as int))
    } else {
        None
    }
}

/// The default branch named by the remote-tracking HEAD ref, if the output
/// of resolving that ref names one.
pub fn remote_default_branch(stdout: &str) -> (r: Option<String>)
    ensures
        match r {
            Some(s) => remote_default_spec(stdout@) == Some(s@),
            None => remote_default_spec(stdout@) is None,
        },
{
    let t = trimmed(&chars_of(stdout));
    let p = chars_of(REMOTE_HEAD_PREFIX);
    if crate::text::starts_with(&t, &p) {
        Some(string_of(&slice_of(&t, p.len(), t.len())))
    } else {
        None
    }
}

/// The answer of the ancestry query: its exit status tells.
pub fn merge_status(out: &CommandOutput) -> (r: MergeStatus)
    ensures
        r == if out.status == 0 { MergeStatus::Merged } else { MergeStatus::NotMerged },
{
    if out.success() {
        MergeStatus::Merged
    } else {
        MergeStatus::NotMerged
    }
}

/// The default branch: the one the remote-tracking HEAD names when it names
/// one, else `main` if it exists, else `master` if it exists, else `main`.
pub open spec fn default_branch_spec(remote: Option<Seq<char>>, main_exists: bool, master_exists: bool) -> Seq<char> {
    match remote {
        Some(b) => b,
        None => if main_exists {
            "main"@
        } else if master_exists {
            "master"@
        } else {
            "main"@
        },
    }
}

pub fn pick_default_branch(remote: Option<String>, main_exists: bool, master_exists: bool) -> (r: String)
    ensures
        r@ == default_branch_spec(opt_str(remote), main_exists, master_exists),
{
    match remote {
        Some(b) => b,
        None => if main_exists {
            arg("main")
        } else if master_exists {
            arg("master")
        } else {
            arg("main")
        },
    }
}

/// The checked-out branch that resolving HEAD reported: its trimmed output
/// when it succeeded, none (a detached HEAD) when it did not.
pub fn current_branch_of(out: &CommandOutput) -> (r: Option<String>)
    ensures
        out.status == 0 ==> (r matches Some(b) && b@ == trim(out.stdout@)),
        out.status != 0 ==> r is None,
{
    if out.success() {
        Some(trim_str(out.stdout.as_str()))
    } else {
        None
    }
}

/// Issues version-control commands for one repository directory.
pub struct GitRunner<E: GitExecutor> {
    executor: E,
    repo_dir: String,
}

impl<E: GitExecutor> GitRunner<E> {
    pub fn new(executor: E, repo_dir: String) -> (r: Self)
        ensures
            r.repo_dir() == repo_dir@,
    {
        GitRunner { executor, repo_dir }
    }

    pub closed spec fn repo_dir(&self) -> Seq<char> {
        self.repo_dir@
    }

    /// The full argument vector of `c`: the repository selection, then the
    /// command's own arguments.
    pub fn command_line(&self, c: &GitCommand) -> (r: Vec<String>)
        ensures
            string_views(r@) == seq!["-C"@, self.repo_dir()] + command_words(*c),
    {
        let args = command_args(c);
        let mut full: Vec<String> = Vec::new();
        full.push(arg("-C"));
        full.push(self.repo_dir.clone());
        let ghost head = seq!["-C"@, self.repo_dir()];
        assert(string_views(full@) == head);
        let mut i: usize = 0;
        while i < args.len()
            invariant
                i <= args.len(),
                head == seq!["-C"@, self.repo_dir()],
                string_views(full@) == head + string_views(args@).subrange(0, i as int),
            decreases args.len() - i,
        {
            let ghost before = string_views(full@);
            full.push(args[i].clone());
            assert(string_views(full@) == before.push(args@[i as int]@));
            assert(string_views(args@).subrange(0, i + 1) == string_views(args@).subrange(0, i as int).push(
                args@[i as int]@,
            ));
            i += 1;
        }
        assert(string_views(args@).subrange(0, i as int) == string_views(args@));
        full
    }

    /// Runs the command in the repository directory; a failure to run it
    /// comes back as the executor reported it.
    fn run(&self, c: GitCommand) -> Result<CommandOutput, OuError> {
        self.executor.run(&self.command_line(&c))
    }

    /// Runs the command; a non-zero exit status becomes an error.
    fn run_ok(&self, c: GitCommand) -> Result<String, OuError> {
        match self.run(c) {
            Ok(out) => out.into_result(),
            Err(e) => Err(e),
        }
    }

    pub fn is_git_repo(&self) -> bool {
        match self.run(GitCommand::GitDir) {
            Ok(o) => o.success(),
            Err(_) => false,
        }
    }

    /// The top-level directory of the working tree.
    pub fn get_toplevel(&self) -> (r: Result<String, OuError>)
        ensures
            r matches Ok(p) ==> exists|s: Seq<char>| p@ == trim(s),
    {
        let out = self.run_ok(GitCommand::ShowToplevel)?;
        Ok(trim_str(out.as_str()))
    }

    /// The shared metadata directory, resolved against the repository
    /// directory when reported as relative.
    pub fn get_common_dir(&self) -> (r: Result<String, OuError>)
        ensures
            r matches Ok(p) ==> exists|s: Seq<char>| p@ == join_path(self.repo_dir(), trim(s)),
    {
        let out = self.run_ok(GitCommand::CommonDir)?;
        let t = trim_str(out.as_str());
        Ok(join(self.repo_dir.as_str(), t.as_str()))
    }

    /// The checked-out branch, or none on a detached HEAD.
    pub fn get_current_branch(&self) -> (r: Result<Option<String>, OuError>)
        ensures
            r matches Ok(Some(b)) ==> exists|s: Seq<char>| b@ == trim(s),
    {
        let output = self.run(GitCommand::CurrentBranch)?;
        Ok(current_branch_of(&output))
    }

    pub fn worktree_list(&self) -> (r: Result<Vec<Worktree>, OuError>)
        ensures
            r matches Ok(v) ==> exists|s: Seq<char>| worktree_views(v@) == worktree_listing(s),
    {
        let out = self.run_ok(GitCommand::WorktreeList)?;
        parse_worktree_list(out.as_str())
    }

    /// Creates a worktree at `path` on a new branch, starting from `source`
    /// when given.
    pub fn worktree_add(&self, path: &str, branch: &str, source: Option<&str>) -> Result<(), OuError> {
        let source = match source {
            Some(s) => Some(arg(s)),
            None => None,
        };
        self.run_ok(GitCommand::WorktreeAdd { path: arg(path), branch: arg(branch), source })?;
        Ok(())
    }

    pub fn worktree_remove(&self, path: &str, force: bool) -> Result<(), OuError> {
        self.run_ok(GitCommand::WorktreeRemove { path: arg(path), force })?;
        Ok(())
    }

    pub fn worktree_lock(&self, path: &str, reason: Option<&str>) -> Result<(), OuError> {
        let reason = match reason {
            Some(r) => Some(arg(r)),
            None => None,
        };
        self.run_ok(GitCommand::WorktreeLock { path: arg(path), reason })?;
        Ok(())
    }

    pub fn worktree_unlock(&self, path: &str) -> Result<(), OuError> {
        self.run_ok(GitCommand::WorktreeUnlock { path: arg(path) })?;
        Ok(())
    }

    pub fn branch_list(&self) -> (r: Result<Vec<Branch>, OuError>)
        ensures
            r matches Ok(v) ==> exists|s: Seq<char>| branch_views(v@) == branch_listing(s),
    {
        let out = self.run_ok(GitCommand::BranchList)?;
        parse_branch_list(out.as_str())
    }

    /// Deletes a branch: `-D` when forced, else `-d`.
    pub fn branch_delete(&self, name: &str, force: bool) -> Result<(), OuError> {
        self.run_ok(GitCommand::BranchDelete { name: arg(name), force })?;
        Ok(())
    }

    /// Whether `branch` is an ancestor of `target` (fully merged into it).
    pub fn is_branch_merged(&self, branch: &str, target: &str) -> (r: Result<MergeStatus, OuError>)
        ensures
            r matches Ok(m) ==> m != MergeStatus::Unknown,
    {
        let output = self.run(GitCommand::IsAncestor { branch: arg(branch), target: arg(target) })?;
        Ok(merge_status(&output))
    }

    /// Moves the uncommitted changes into the stash; tells whether there
    /// were any.
    pub fn stash_push(&self, message: &str) -> (r: Result<bool, OuError>)
        ensures
            r matches Ok(b) ==> exists|s: Seq<char>| b == stash_saved_spec(s),
    {
        let output = self.run_ok(GitCommand::StashPush { message: arg(message) })?;
        Ok(stash_saved(output.as_str()))
    }

    pub fn stash_pop(&self) -> Result<(), OuError> {
        self.run_ok(GitCommand::StashPop)?;
        Ok(())
    }

    pub fn has_uncommitted_changes(&self) -> (r: Result<bool, OuError>)
        ensures
            r matches Ok(b) ==> exists|s: Seq<char>| b == (trim(s).len() > 0),
    {
        let output = self.run_ok(GitCommand::Status)?;
        let t = trimmed(&chars_of(output.as_str()));
        Ok(t.len() > 0)
    }

    /// Initializes submodules, recursively, inside the worktree at `path`.
    pub fn init_submodules(&self, path: &str) -> Result<(), OuError> {
        self.run_ok(GitCommand::SubmoduleInit { path: arg(path) })?;
        Ok(())
    }

    fn ref_exists(&self, name: &str) -> bool {
        match self.run(GitCommand::VerifyRef { name: arg(name) }) {
            Ok(o) => o.success(),
            Err(_) => false,
        }
    }

    /// The default branch: the one the remote-tracking HEAD names, else
    /// `main` or `master` if such a branch exists, else `main`.
    pub fn default_branch(&self) -> (r: Result<String, OuError>)
        ensures
            r is Ok,
            r matches Ok(b) ==> exists|remote: Option<Seq<char>>, main_exists: bool, master_exists: bool|
                b@ == #[trigger] default_branch_spec(remote, main_exists, master_exists)
                && (remote matches Some(x) ==> exists|s: Seq<char>| remote_default_spec(s) == Some(x)),
    {
        let remote = match self.run(GitCommand::RemoteHead) {
            Ok(out) => if out.success() {
                remote_default_branch(out.stdout.as_str())
            } else {
                None
            },
            Err(_) => None,
        };
        if remote.is_some() {
            return Ok(pick_default_branch(remote, false, false));
        }
        let main_exists = self.ref_exists("main");
        let master_exists = if main_exists {
            false
        } else {
            self.ref_exists("master")
        };
        Ok(pick_default_branch(None, main_exists, master_exists))
    }
}

} // verus!
