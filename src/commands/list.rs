//! Listing worktrees: one row per worktree, or only the paths.

use vstd::prelude::*;

use crate::cli::ListArgs;
use crate::error::OuError;
use crate::git::executor::GitExecutor;
use crate::git::runner::GitRunner;
use crate::git::types::{Worktree, WorktreeView};
use crate::result::FormatResult;
use crate::text::{chars_of, join_strings, joined, slice_of, string_of, string_views};

verus! {

/// The commit shown in a listing: its first seven characters.
pub open spec fn short_head_spec(head: Seq<char>) -> Seq<char> {
    if head.len() >= 7 {
        head.subrange(0, 7)
    } else {
        head
    }
}

pub fn short_head(head: &str) -> (r: String)
    ensures
        r@ == short_head_spec(head@),
{
    let v = chars_of(head);
    if v.len() >= 7 {
        string_of(&slice_of(&v, 0, 7))
    } else {
        string_of(&v)
    }
}

pub open spec fn flag_words(w: WorktreeView) -> Seq<Seq<char>> {
    let a: Seq<Seq<char>> = if w.is_bare {
        seq!["[bare]"@]
    } else {
        seq![]
    };
    let b = if w.is_locked {
        a.push("[locked]"@)
    } else {
        a
    };
    if w.is_prunable {
        b.push("[prunable]"@)
    } else {
        b
    }
}

/// The status flags of a worktree, separated by spaces.
pub fn flag_text(w: &Worktree) -> (r: String)
    ensures
        r@ == joined(flag_words(w@), " "@),
{
    let mut flags: Vec<String> = Vec::new();
    if w.is_bare {
        flags.push(String::from_str("[bare]"));
    }
    if w.is_locked {
        flags.push(String::from_str("[locked]"));
    }
    if w.is_prunable {
        flags.push(String::from_str("[prunable]"));
    }
    assert(string_views(flags@) == flag_words(w@));
    join_strings(&flags, " ")
}

pub open spec fn branch_label(w: WorktreeView) -> Seq<char> {
    match w.branch {
        Some(b) => b,
        None => "(detached)"@,
    }
}

/// The cells of a worktree's row: branch, short commit, path, flags.
pub open spec fn row_spec(w: WorktreeView) -> Seq<Seq<char>> {
    seq![branch_label(w), short_head_spec(w.head), w.path, joined(flag_words(w), " "@)]
}

pub fn list_row(w: &Worktree) -> (r: Vec<String>)
    ensures
        string_views(r@) == row_spec(w@),
{
    let branch = match &w.branch {
        Some(b) => b.clone(),
        None => String::from_str("(detached)"),
    };
    let r = vec![branch, short_head(w.head.as_str()), w.path.clone(), flag_text(w)];
    assert(string_views(r@) == row_spec(w@));
    r
}

/// Lists the worktrees: their paths, one per line, when `quiet`, else a
/// table with one row per worktree.
pub fn run<E: GitExecutor>(git: &GitRunner<E>, args: &ListArgs) -> (r: Result<FormatResult, OuError>)
    ensures
        r matches Ok(f) ==> (args.quiet <==> f is Plain),
{
    let worktrees = git.worktree_list()?;
    if args.quiet {
        let mut paths: Vec<String> = Vec::new();
        let mut i: usize = 0;
        while i < worktrees.len()
            invariant
                i <= worktrees.len(),
            decreases worktrees.len() - i,
        {
            paths.push(worktrees[i].path.clone());
            i += 1;
        }
        return Ok(FormatResult::Plain(join_strings(&paths, "\n")));
    }
    let mut rows: Vec<Vec<String>> = Vec::new();
    let mut i: usize = 0;
    while i < worktrees.len()
        invariant
            i <= worktrees.len(),
        decreases worktrees.len() - i,
    {
        rows.push(list_row(&worktrees[i]));
        i += 1;
    }
    Ok(FormatResult::Table(rows))
}

} // verus!
