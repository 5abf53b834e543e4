//! Automatic cleanup: worktrees whose branch is merged into the default
//! branch, or whose upstream is gone.

use vstd::prelude::*;
use vstd::string::StringExecFns;

use crate::cli::CleanArgs;
use crate::config::Config;
use crate::error::OuError;
use crate::git::executor::GitExecutor;
use crate::git::runner::GitRunner;
use crate::git::types::{Branch, BranchView, MergeStatus, Worktree, WorktreeView, branch_views, worktree_views};
use crate::commands::remove::{batch_report, batch_result, opt_strs};
use crate::config::source_branch_of;
use crate::git::parse::{branch_listing, worktree_listing};
use crate::git::types::opt_str;
use crate::result::Outcome;
use crate::text::string_views;

verus! {

pub open spec fn reason_spec(merged: bool, gone: bool) -> Option<Seq<char>> {
    if merged && gone {
        Some("merged + upstream gone"@)
    } else if merged {
        Some("merged"@)
    } else if gone {
        Some("upstream gone"@)
    } else {
        None
    }
}

/// Why a worktree is a cleanup candidate, if it is one.
pub fn clean_reason(merged: bool, gone: bool) -> (r: Option<&'static str>)
    ensures
        match r {
            Some(s) => reason_spec(merged, gone) == Some(s@),
            None => reason_spec(merged, gone) is None,
        },
{
    if merged && gone {
        Some("merged + upstream gone")
    } else if merged {
        Some("merged")
    } else if gone {
        Some("upstream gone")
    } else {
        None
    }
}

/// Whether the first branch record of that name says its upstream is gone.
pub open spec fn gone_spec(branches: Seq<BranchView>, name: Seq<char>) -> bool
    decreases branches.len(),
{
    if branches.len() == 0 {
        false
    } else if branches[0].name == name {
        branches[0].gone
    } else {
        gone_spec(branches.drop_first(), name)
    }
}

pub fn upstream_gone(branches: &Vec<Branch>, name: &String) -> (r: bool)
    ensures
        r == gone_spec(branch_views(branches@), name@),
{
    let ghost all = branch_views(branches@);
    let mut i: usize = 0;
    assert(all.subrange(0, all.len() as int) == all);
    while i < branches.len()
        invariant
            all == branch_views(branches@),
            i <= branches.len(),
            gone_spec(all.subrange(i as int, all.len() as int), name@) == gone_spec(all, name@),
        decreases branches.len() - i,
    {
        let ghost rest = all.subrange(i as int, all.len() as int);
        assert(rest.drop_first() == all.subrange(i + 1, all.len() as int));
        assert(rest[0] == branches@[i as int]@);
        if branches[i].name == *name {
            return branches[i].gone;
        }
        i += 1;
    }
    assert(all.subrange(i as int, all.len() as int).len() == 0);
    false
}

/// A worktree that cleanup looks at: not bare, on a branch other than the
/// default branch.
pub open spec fn eligible(w: WorktreeView, default_branch: Seq<char>) -> bool {
    !w.is_bare && (w.branch matches Some(b) && b != default_branch)
}

pub fn is_eligible(w: &Worktree, default_branch: &str) -> (r: bool)
    ensures
        r == eligible(w@, default_branch@),
{
    if w.is_bare {
        return false;
    }
    match &w.branch {
        Some(b) => !crate::text::same_chars(
            &crate::text::chars_of(b.as_str()),
            &crate::text::chars_of(default_branch),
        ),
        None => false,
    }
}

/// A worktree selected for cleanup, with the label of the reason.
#[derive(Debug, Clone)]
pub struct CleanCandidate {
    pub branch: String,
    pub path: String,
    pub reason: String,
}

pub struct CandidateView {
    pub branch: Seq<char>,
    pub path: Seq<char>,
    pub reason: Seq<char>,
}

impl View for CleanCandidate {
    type V = CandidateView;

    open spec fn view(&self) -> CandidateView {
        CandidateView { branch: self.branch@, path: self.path@, reason: self.reason@ }
    }
}

/// The decision on one worktree, given whether its branch is merged.
pub open spec fn candidate_of(
    w: WorktreeView,
    branches: Seq<BranchView>,
    default_branch: Seq<char>,
    merged: bool,
) -> Option<CandidateView> {
    if eligible(w, default_branch) {
        let b = w.branch.unwrap();
        match reason_spec(merged, gone_spec(branches, b)) {
            Some(reason) => Some(CandidateView { branch: b, path: w.path, reason }),
            None => None,
        }
    } else {
        None
    }
}

/// The candidates, in worktree order.
pub open spec fn candidates_spec(
    ws: Seq<WorktreeView>,
    branches: Seq<BranchView>,
    default_branch: Seq<char>,
    merged: Seq<bool>,
) -> Seq<CandidateView>
    decreases ws.len(),
{
    if ws.len() == 0 {
        seq![]
    } else {
        let rest = candidates_spec(ws.drop_last(), branches, default_branch, merged);
        match candidate_of(ws.last(), branches, default_branch, merged[ws.len() - 1]) {
            Some(c) => rest.push(c),
            None => rest,
        }
    }
}

pub open spec fn candidate_views(v: Seq<CleanCandidate>) -> Seq<CandidateView> {
    v.map_values(|c: CleanCandidate| c@)
}

/// Selects the cleanup candidates; `merged[i]` tells whether the branch of
/// worktree `i` is merged into the default branch.
pub fn clean_candidates(
    worktrees: &Vec<Worktree>,
    branches: &Vec<Branch>,
    default_branch: &str,
    merged: &Vec<bool>,
) -> (r: Vec<CleanCandidate>)
    requires
        merged.len() == worktrees.len(),
    ensures
        candidate_views(r@) == candidates_spec(
            worktree_views(worktrees@),
            branch_views(branches@),
            default_branch@,
            merged@,
        ),
{
    let ghost ws = worktree_views(worktrees@);
    let ghost bs = branch_views(branches@);
    let mut out: Vec<CleanCandidate> = Vec::new();
    let mut i: usize = 0;
    assert(candidate_views(out@) == Seq::<CandidateView>::empty());
    assert(ws.subrange(0, 0) == Seq::<WorktreeView>::empty());
    while i < worktrees.len()
        invariant
            ws == worktree_views(worktrees@),
            bs == branch_views(branches@),
            merged.len() == worktrees.len(),
            i <= worktrees.len(),
            candidate_views(out@) == candidates_spec(ws.subrange(0, i as int), bs, default_branch@, merged@),
        decreases worktrees.len() - i,
    {
        let ghost before = candidate_views(out@);
        let ghost next = ws.subrange(0, i + 1);
        assert(next.drop_last() == ws.subrange(0, i as int));
        assert(next.last() == worktrees@[i as int]@);
        let w = &worktrees[i];
        if is_eligible(w, default_branch) {
            let b = match &w.branch {
                Some(b) => b,
                None => {
                    i += 1;
                    continue;
                },
            };
            let gone = upstream_gone(branches, b);
            match clean_reason(merged[i], gone) {
                Some(reason) => {
                    let c = CleanCandidate {
                        branch: b.clone(),
                        path: w.path.clone(),
                        reason: String::from_str(reason),
                    };
                    out.push(c);
                    assert(candidate_views(out@) == before.push(c@));
                },
                None => {},
            }
        }
        i += 1;
    }
    assert(ws.subrange(0, i as int) == ws);
    out
}

/// A worktree whose branch is merged and whose upstream is not gone is
/// selected with the reason "merged"; one whose upstream alone is gone, with
/// "upstream gone"; one that is neither merged nor gone is never selected.
pub proof fn lemma_clean_selection(
    w: WorktreeView,
    branches: Seq<BranchView>,
    default_branch: Seq<char>,
    merged: bool,
)
    requires
        eligible(w, default_branch),
    ensures
        ({
            let gone = gone_spec(branches, w.branch.unwrap());
            &&& merged && !gone ==> (candidate_of(w, branches, default_branch, merged) matches Some(c)
                && c.reason == "merged"@ && c.branch == w.branch.unwrap())
            &&& !merged && gone ==> (candidate_of(w, branches, default_branch, merged) matches Some(c)
                && c.reason == "upstream gone"@ && c.branch == w.branch.unwrap())
            &&& !merged && !gone ==> candidate_of(w, branches, default_branch, merged) is None
        }),
{
}

/// A worktree that is not eligible, or whose decision is none, contributes
/// nothing: every candidate comes from an eligible worktree with a reason.
pub proof fn lemma_candidates_from_decisions(
    ws: Seq<WorktreeView>,
    branches: Seq<BranchView>,
    default_branch: Seq<char>,
    merged: Seq<bool>,
)
    requires
        merged.len() == ws.len(),
    ensures
        forall|k: int| 0 <= k < candidates_spec(ws, branches, default_branch, merged).len()
            ==> exists|i: int| 0 <= i < ws.len() && candidate_of(ws[i], branches, default_branch, merged[i])
                == Some(#[trigger] candidates_spec(ws, branches, default_branch, merged)[k]),
    decreases ws.len(),
{
    if ws.len() > 0 {
        let pre = ws.drop_last();
        lemma_candidates_from_decisions(pre, branches, default_branch, merged.drop_last());
        assert(candidates_spec(pre, branches, default_branch, merged.drop_last())
            == candidates_spec(pre, branches, default_branch, merged)) by {
            lemma_candidates_prefix_merged(pre, branches, default_branch, merged.drop_last(), merged);
        }
        let c = candidates_spec(ws, branches, default_branch, merged);
        let r = candidates_spec(pre, branches, default_branch, merged);
        assert forall|k: int| 0 <= k < c.len() implies exists|i: int| 0 <= i < ws.len()
            && candidate_of(ws[i], branches, default_branch, merged[i]) == Some(#[trigger] c[k]) by {
            if k < r.len() {
                assert(c[k] == r[k]);
                let i = choose|i: int| 0 <= i < pre.len() && candidate_of(pre[i], branches, default_branch, merged.drop_last()[i]) == Some(r[k]);
                assert(ws[i] == pre[i]);
                assert(merged[i] == merged.drop_last()[i]);
            } else {
                let i = ws.len() - 1;
                assert(ws[i] == ws.last());
            }
        }
    }
}

proof fn lemma_candidates_prefix_merged(
    ws: Seq<WorktreeView>,
    branches: Seq<BranchView>,
    default_branch: Seq<char>,
    m1: Seq<bool>,
    m2: Seq<bool>,
)
    requires
        ws.len() <= m1.len(),
        ws.len() <= m2.len(),
        forall|i: int| 0 <= i < ws.len() ==> m1[i] == m2[i],
    ensures
        candidates_spec(ws, branches, default_branch, m1) == candidates_spec(ws, branches, default_branch, m2),
    decreases ws.len(),
{
    if ws.len() > 0 {
        lemma_candidates_prefix_merged(ws.drop_last(), branches, default_branch, m1, m2);
    }
}

/// The dry-run listing: one line per candidate.
pub open spec fn check_lines(cands: Seq<CandidateView>) -> Seq<char>
    decreases cands.len(),
{
    if cands.len() == 0 {
        seq![]
    } else {
        let c = cands.last();
        check_lines(cands.drop_last()) + "  "@ + c.branch + " ("@ + c.reason + ") at "@ + c.path + "\n"@
    }
}

/// The branches whose worktree was removed.
pub open spec fn cleaned_of(cands: Seq<CandidateView>, fails: Seq<Option<Seq<char>>>) -> Seq<Seq<char>>
    decreases cands.len(),
{
    if cands.len() == 0 || fails.len() == 0 {
        seq![]
    } else {
        let rest = cleaned_of(cands.drop_last(), fails.drop_last());
        if fails.last() is None {
            rest.push(cands.last().branch)
        } else {
            rest
        }
    }
}

/// The error entries of the removals that failed.
pub open spec fn clean_errors_of(cands: Seq<CandidateView>, fails: Seq<Option<Seq<char>>>) -> Seq<Seq<char>>
    decreases cands.len(),
{
    if cands.len() == 0 || fails.len() == 0 {
        seq![]
    } else {
        let rest = clean_errors_of(cands.drop_last(), fails.drop_last());
        match fails.last() {
            None => rest,
            Some(m) => rest.push("failed to remove worktree '"@ + cands.last().branch + "': "@ + m),
        }
    }
}

/// The result of a cleanup of these candidates, given the failures of the
/// removals (unused in a dry run).
pub open spec fn clean_result(cands: Seq<CandidateView>, check: bool, fails: Seq<Option<Seq<char>>>) -> Result<Seq<char>, Seq<char>> {
    if cands.len() == 0 {
        Ok("No worktrees to clean."@)
    } else if check {
        Ok("Would remove:\n"@ + check_lines(cands))
    } else {
        batch_result("Cleaned: "@, cleaned_of(cands, fails), clean_errors_of(cands, fails))
    }
}

/// The report of a cleanup.
pub fn clean_report(cands: &Vec<CleanCandidate>, check: bool, fails: &Vec<Option<String>>) -> (r: Result<String, OuError>)
    requires
        fails.len() == cands.len(),
    ensures
        match clean_result(candidate_views(cands@), check, opt_strs(fails@)) {
            Ok(m) => (r matches Ok(s) && s@ == m),
            Err(m) => (r matches Err(OuError::Git(s)) && s@ == m),
        },
{
    let ghost cs = candidate_views(cands@);
    let ghost fs = opt_strs(fails@);
    if cands.len() == 0 {
        return Ok(String::from_str("No worktrees to clean."));
    }
    if check {
        let mut lines = String::new();
        let mut k: usize = 0;
        assert(cs.subrange(0, 0) == Seq::<CandidateView>::empty());
        while k < cands.len()
            invariant
                cs == candidate_views(cands@),
                k <= cands.len(),
                lines@ == check_lines(cs.subrange(0, k as int)),
            decreases cands.len() - k,
        {
            assert(cs.subrange(0, k + 1).drop_last() == cs.subrange(0, k as int));
            assert(cs.subrange(0, k + 1).last() == cands@[k as int]@);
            let c = &cands[k];
            lines = lines.concat("  ").concat(c.branch.as_str()).concat(" (").concat(c.reason.as_str()).concat(
                ") at ",
            ).concat(c.path.as_str()).concat("\n");
            k += 1;
        }
        assert(cs.subrange(0, k as int) == cs);
        return Ok(String::from_str("Would remove:\n").concat(lines.as_str()));
    }
    let mut removed: Vec<String> = Vec::new();
    let mut errors: Vec<String> = Vec::new();
    let mut k: usize = 0;
    assert(cs.subrange(0, 0) == Seq::<CandidateView>::empty());
    while k < cands.len()
        invariant
            cs == candidate_views(cands@),
            fs == opt_strs(fails@),
            fails.len() == cands.len(),
            k <= cands.len(),
            string_views(removed@) == cleaned_of(cs.subrange(0, k as int), fs.subrange(0, k as int)),
            string_views(errors@) == clean_errors_of(cs.subrange(0, k as int), fs.subrange(0, k as int)),
        decreases cands.len() - k,
    {
        assert(cs.subrange(0, k + 1).drop_last() == cs.subrange(0, k as int));
        assert(fs.subrange(0, k + 1).drop_last() == fs.subrange(0, k as int));
        assert(cs.subrange(0, k + 1).last() == cands@[k as int]@);
        assert(fs.subrange(0, k + 1).last() == opt_str(fails@[k as int]));
        let ghost br = string_views(removed@);
        let ghost be = string_views(errors@);
        match &fails[k] {
            None => {
                removed.push(cands[k].branch.clone());
                assert(string_views(removed@) == br.push(cands@[k as int].branch@));
            },
            Some(m) => {
                let e = String::from_str("failed to remove worktree '").concat(cands[k].branch.as_str()).concat(
                    "': ",
                ).concat(m.as_str());
                errors.push(e);
                assert(string_views(errors@) == be.push(e@));
            },
        }
        k += 1;
    }
    assert(cs.subrange(0, k as int) == cs);
    assert(fs.subrange(0, k as int) == fs);
    batch_report("Cleaned: ", &removed, &errors)
}

/// The results a cleanup over these listings can have: the candidates are
/// the selection for some answers of the ancestry query, and only the
/// failures of the removals are left to the tool.
pub open spec fn clean_ok(
    r: Result<Outcome, OuError>,
    ws: Seq<WorktreeView>,
    bs: Seq<BranchView>,
    default_branch: Seq<char>,
    check: bool,
) -> bool {
    exists|merged: Seq<bool>, fails: Seq<Option<Seq<char>>>|
        #[trigger] clean_with_answers(r, ws, bs, default_branch, check, merged, fails)
}

pub open spec fn clean_with_answers(
    r: Result<Outcome, OuError>,
    ws: Seq<WorktreeView>,
    bs: Seq<BranchView>,
    default_branch: Seq<char>,
    check: bool,
    merged: Seq<bool>,
    fails: Seq<Option<Seq<char>>>,
) -> bool {
    let cands = candidates_spec(ws, bs, default_branch, merged);
    &&& merged.len() == ws.len()
    &&& fails.len() == cands.len()
    &&& match clean_result(cands, check, fails) {
        Ok(m) => (r matches Ok(o) && o.message@ == m),
        Err(m) => (r matches Err(OuError::Git(s)) && s@ == m),
    }
}

/// Cleans up, given the current listings: asks for each eligible worktree
/// whether its branch is merged, selects the candidates, and removes each
/// (unforced) and then its branch, unless `check`. A branch deletion
/// failure is a warning.
pub fn clean_listed<E: GitExecutor>(
    git: &GitRunner<E>,
    config: &Config,
    args: &CleanArgs,
    worktrees: &Vec<Worktree>,
    branches: &Vec<Branch>,
) -> (r: Result<Outcome, OuError>)
    ensures
        clean_ok(r, worktree_views(worktrees@), branch_views(branches@), source_branch_of(config@), args.check),
{
    let default_branch = config.default_source_branch();
    let mut merged: Vec<bool> = Vec::new();
    let mut i: usize = 0;
    while i < worktrees.len()
        invariant
            i <= worktrees.len(),
            merged.len() == i,
        decreases worktrees.len() - i,
    {
        let w = &worktrees[i];
        let mut m = false;
        if is_eligible(w, default_branch) {
            if let Some(b) = &w.branch {
                m = match git.is_branch_merged(b.as_str(), default_branch) {
                    Ok(MergeStatus::Merged) => true,
                    _ => false,
                };
            }
        }
        merged.push(m);
        i += 1;
    }
    let candidates = clean_candidates(worktrees, branches, default_branch, &merged);
    let mut fails: Vec<Option<String>> = Vec::new();
    let mut warnings: Vec<String> = Vec::new();
    let mut k: usize = 0;
    while k < candidates.len()
        invariant
            k <= candidates.len(),
            fails.len() == k,
        decreases candidates.len() - k,
    {
        let c = &candidates[k];
        if args.check {
            fails.push(None);
        } else {
            match git.worktree_remove(c.path.as_str(), false) {
                Ok(()) => {
                    if let Err(e) = git.branch_delete(c.branch.as_str(), false) {
                        warnings.push(
                            String::from_str("failed to delete branch ").concat(c.branch.as_str()).concat(": ").concat(
                                e.message().as_str(),
                            ),
                        );
                    }
                    fails.push(None);
                },
                Err(e) => fails.push(Some(e.message())),
            }
        }
        k += 1;
    }
    let r = match clean_report(&candidates, args.check, &fails) {
        Ok(message) => Ok(Outcome { message, warnings }),
        Err(e) => Err(e),
    };
    assert(clean_with_answers(
        r,
        worktree_views(worktrees@),
        branch_views(branches@),
        source_branch_of(config@),
        args.check,
        merged@,
        opt_strs(fails@),
    ));
    r
}

/// Removes the worktrees whose branch is merged into the default branch or
/// whose upstream is gone, and their branches; with `check`, only lists
/// them.
pub fn run<E: GitExecutor>(git: &GitRunner<E>, config: &Config, args: &CleanArgs) -> (r: Result<Outcome, OuError>)
    ensures
        r is Ok ==> exists|s: Seq<char>, t: Seq<char>|
            clean_ok(r, #[trigger] worktree_listing(s), #[trigger] branch_listing(t), source_branch_of(config@), args.check),
{
    let worktrees = git.worktree_list()?;
    let branches = git.branch_list()?;
    clean_listed(git, config, args, &worktrees, &branches)
}

} // verus!
