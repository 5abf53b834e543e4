//! Re-applying symlinks (and submodules) to existing worktrees.

use vstd::prelude::*;
use vstd::string::StringExecFns;

use crate::cli::SyncArgs;
use crate::config::Config;
use crate::error::OuError;
use crate::fs::FileSystem;
use crate::git::executor::GitExecutor;
use crate::git::runner::GitRunner;
use crate::git::types::{Worktree, WorktreeView, worktree_views};
use crate::symlink::create_symlinks;
use crate::commands::list::branch_label;
use crate::commands::remove::worktree_on;
use crate::git::parse::worktree_listing;
use crate::git::types::opt_str;
use crate::result::Outcome;
use crate::text::{chars_of, join_strings, joined, same_chars, string_views};

verus! {

/// A worktree that a sync writes into: not bare, and either any worktree
/// but the source (`all`) or only the one at the working directory.
pub open spec fn is_sync_target(w: WorktreeView, source_dir: Seq<char>, all: bool, cwd: Seq<char>) -> bool {
    !w.is_bare && if all {
        w.path != source_dir
    } else {
        w.path == cwd
    }
}

fn same_str(a: &str, b: &str) -> (r: bool)
    ensures
        r == (a@ == b@),
{
    same_chars(&chars_of(a), &chars_of(b))
}

/// The positions of the sync targets, in order.
pub fn sync_targets(worktrees: &Vec<Worktree>, source_dir: &str, all: bool, cwd: &str) -> (r: Vec<usize>)
    ensures
        forall|k: int| 0 <= k < r.len() ==> r[k] < worktrees.len()
            && is_sync_target(worktrees@[r[k] as int]@, source_dir@, all, cwd@),
        forall|k: int, l: int| 0 <= k < l < r.len() ==> r[k] < r[l],
        forall|i: int| 0 <= i < worktrees.len() && is_sync_target(worktrees@[i]@, source_dir@, all, cwd@)
            ==> exists|k: int| 0 <= k < r.len() && r[k] == i,
{
    let mut out: Vec<usize> = Vec::new();
    let mut i: usize = 0;
    while i < worktrees.len()
        invariant
            i <= worktrees.len(),
            forall|k: int| 0 <= k < out.len() ==> out[k] < i
                && is_sync_target(worktrees@[out[k] as int]@, source_dir@, all, cwd@),
            forall|k: int, l: int| 0 <= k < l < out.len() ==> out[k] < out[l],
            forall|j: int| 0 <= j < i && is_sync_target(worktrees@[j]@, source_dir@, all, cwd@)
                ==> exists|k: int| 0 <= k < out.len() && out[k] == j,
        decreases worktrees.len() - i,
    {
        let w = &worktrees[i];
        let target = !w.is_bare && if all {
            !same_str(w.path.as_str(), source_dir)
        } else {
            same_str(w.path.as_str(), cwd)
        };
        let ghost before = out@;
        if target {
            out.push(i);
            assert(out[out.len() - 1] == i);
        }
        assert forall|j: int| 0 <= j < i + 1 && is_sync_target(worktrees@[j]@, source_dir@, all, cwd@)
            implies exists|k: int| 0 <= k < out.len() && out[k] == j by {
            if j == i {
                assert(out[out.len() - 1] == j);
            } else {
                let k = choose|k: int| 0 <= k < before.len() && before[k] == j;
                assert(out@[k] == before[k]);
            }
        }
        i += 1;
    }
    out
}

/// The report of a sync over the worktrees of these branches.
pub open spec fn sync_text(synced: Seq<Seq<char>>) -> Seq<char> {
    if synced.len() == 0 {
        "No worktrees to sync."@
    } else {
        "Synced: "@ + joined(synced, ", "@)
    }
}

pub fn sync_report(synced: &Vec<String>) -> (r: String)
    ensures
        r@ == sync_text(string_views(synced@)),
{
    if synced.len() == 0 {
        String::from_str("No worktrees to sync.")
    } else {
        String::from_str("Synced: ").concat(join_strings(synced, ", ").as_str())
    }
}

/// The source directory: the repository root, or the path of the first
/// worktree on the named branch; none when no worktree is on it.
pub open spec fn source_dir_spec(ws: Seq<WorktreeView>, source: Option<Seq<char>>, root: Seq<char>) -> Option<Seq<char>> {
    match source {
        None => Some(root),
        Some(s) => match worktree_on(ws, s) {
            Some(w) => Some(w.path),
            None => None,
        },
    }
}

/// The names a sync reports: each target's branch, or `(detached)`.
pub open spec fn sync_names(ws: Seq<WorktreeView>, source_dir: Seq<char>, all: bool, cwd: Seq<char>) -> Seq<Seq<char>>
    decreases ws.len(),
{
    if ws.len() == 0 {
        seq![]
    } else {
        let rest = sync_names(ws.drop_last(), source_dir, all, cwd);
        if is_sync_target(ws.last(), source_dir, all, cwd) {
            rest.push(branch_label(ws.last()))
        } else {
            rest
        }
    }
}

pub fn sync_source(worktrees: &Vec<Worktree>, source: &Option<String>, repo_root: &str) -> (r: Result<String, OuError>)
    ensures
        match source_dir_spec(worktree_views(worktrees@), opt_str(*source), repo_root@) {
            Some(d) => (r matches Ok(x) && x@ == d),
            None => (r matches Err(OuError::WorktreeNotFound(n)) && (*source matches Some(s) && n@ == s@)),
        },
{
    let name = match source {
        None => return Ok(String::from_str(repo_root)),
        Some(s) => s,
    };
    let ghost all = worktree_views(worktrees@);
    assert(opt_str(*source) == Some(name@));
    let mut i: usize = 0;
    assert(all.subrange(0, all.len() as int) == all);
    while i < worktrees.len()
        invariant
            all == worktree_views(worktrees@),
            opt_str(*source) == Some(name@),
            i <= worktrees.len(),
            worktree_on(all.subrange(i as int, all.len() as int), name@) == worktree_on(all, name@),
        decreases worktrees.len() - i,
    {
        let ghost rest = all.subrange(i as int, all.len() as int);
        assert(rest.drop_first() == all.subrange(i + 1, all.len() as int));
        assert(rest[0] == worktrees@[i as int]@);
        let on = match &worktrees[i].branch {
            Some(b) => *b == *name,
            None => false,
        };
        if on {
            assert(worktree_on(all, name@) == Some(worktrees@[i as int]@));
            let p = worktrees[i].path.clone();
            assert(p@ == worktrees@[i as int]@.path);
            return Ok(p);
        }
        i += 1;
    }
    assert(all.subrange(i as int, all.len() as int).len() == 0);
    Err(OuError::WorktreeNotFound(name.clone()))
}

pub fn sync_names_of(worktrees: &Vec<Worktree>, source_dir: &str, all: bool, cwd: &str) -> (r: Vec<String>)
    ensures
        string_views(r@) == sync_names(worktree_views(worktrees@), source_dir@, all, cwd@),
{
    let ghost ws = worktree_views(worktrees@);
    let mut out: Vec<String> = Vec::new();
    let mut i: usize = 0;
    assert(ws.subrange(0, 0) == Seq::<WorktreeView>::empty());
    while i < worktrees.len()
        invariant
            ws == worktree_views(worktrees@),
            i <= worktrees.len(),
            string_views(out@) == sync_names(ws.subrange(0, i as int), source_dir@, all, cwd@),
        decreases worktrees.len() - i,
    {
        assert(ws.subrange(0, i + 1).drop_last() == ws.subrange(0, i as int));
        assert(ws.subrange(0, i + 1).last() == worktrees@[i as int]@);
        let ghost before = string_views(out@);
        let w = &worktrees[i];
        let target = !w.is_bare && if all {
            !same_str(w.path.as_str(), source_dir)
        } else {
            same_str(w.path.as_str(), cwd)
        };
        if target {
            let label = match &w.branch {
                Some(b) => b.clone(),
                None => String::from_str("(detached)"),
            };
            out.push(label);
            assert(string_views(out@) == before.push(branch_label(w@)));
        }
        i += 1;
    }
    assert(ws.subrange(0, i as int) == ws);
    out
}

/// Syncs, given the repository root and the current listing: fails with
/// `WorktreeNotFound` exactly when no worktree is on the named source, and
/// otherwise reports the targets' names.
pub fn sync_listed<E: GitExecutor, F: FileSystem>(
    git: &GitRunner<E>,
    fs: &F,
    config: &Config,
    args: &SyncArgs,
    cwd: &str,
    repo_root: &str,
    worktrees: &Vec<Worktree>,
) -> (r: Result<Outcome, OuError>)
    ensures
        match source_dir_spec(worktree_views(worktrees@), opt_str(args.source), repo_root@) {
            None => (r matches Err(OuError::WorktreeNotFound(n)) && (args.source matches Some(s) && n@ == s@)),
            Some(d) => (r matches Ok(o) ==> o.message@ == sync_text(
                sync_names(worktree_views(worktrees@), d, args.all, cwd@),
            )),
        },
{
    let patterns = config.all_symlinks();
    let source_dir = sync_source(worktrees, &args.source, repo_root)?;
    let targets = sync_targets(worktrees, source_dir.as_str(), args.all, cwd);
    let mut warnings: Vec<String> = Vec::new();
    let mut k: usize = 0;
    while k < targets.len()
        invariant
            source_dir_spec(worktree_views(worktrees@), opt_str(args.source), repo_root@) == Some(source_dir@),
            k <= targets.len(),
            forall|j: int| 0 <= j < targets.len() ==> targets[j] < worktrees.len(),
        decreases targets.len() - k,
    {
        let wt = &worktrees[targets[k]];
        k += 1;
        create_symlinks(fs, source_dir.as_str(), wt.path.as_str(), &patterns)?;
        if config.init_submodules {
            if let Err(e) = git.init_submodules(wt.path.as_str()) {
                let branch = match &wt.branch {
                    Some(b) => b.as_str(),
                    None => "(detached)",
                };
                warnings.push(
                    String::from_str("submodule init failed for ").concat(branch).concat(": ").concat(
                        e.message().as_str(),
                    ),
                );
            }
        }
    }
    let names = sync_names_of(worktrees, source_dir.as_str(), args.all, cwd);
    let message = sync_report(&names);
    Ok(Outcome { message, warnings })
}

/// Links the configured patterns from the source (a named worktree, or the
/// repository root) into the targets, and initializes their submodules when
/// configured; a submodule failure is a warning. `cwd` is the working
/// directory, which selects the target without `all`.
pub fn run<E: GitExecutor, F: FileSystem>(
    git: &GitRunner<E>,
    fs: &F,
    config: &Config,
    args: &SyncArgs,
    cwd: &str,
) -> (r: Result<Outcome, OuError>)
    ensures
        r matches Ok(o) ==> exists|s: Seq<char>, d: Seq<char>|
            o.message@ == sync_text(#[trigger] sync_names(worktree_listing(s), d, args.all, cwd@)),
{
    let repo_root = git.get_toplevel()?;
    let worktrees = git.worktree_list()?;
    sync_listed(git, fs, config, args, cwd, repo_root.as_str(), &worktrees)
}

} // verus!
