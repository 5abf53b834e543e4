//! Removing worktrees and their branches, under the force-level policy.

use vstd::prelude::*;
use vstd::string::StringExecFns;

use crate::cli::RemoveArgs;
use crate::error::OuError;
use crate::git::executor::GitExecutor;
use crate::git::runner::GitRunner;
use crate::git::parse::worktree_listing;
use crate::git::types::{opt_str, Worktree, WorktreeView, worktree_views};
use crate::result::Outcome;
use crate::text::{has_prefix, join_strings, joined, lemma_prefix_extends, lemma_prefix_of_concat, string_views};

verus! {

/// How far a removal may override the tool's safety refusals.
#[derive(Debug, Clone, Copy, PartialEq, Eq, Structural)]
pub enum ForceLevel {
    /// Refuse uncommitted changes and locks.
    NoForce,
    /// Override uncommitted changes.
    Force,
    /// Also unlock a locked worktree first.
    ForceForce,
}

pub open spec fn rank(l: ForceLevel) -> int {
    match l {
        ForceLevel::NoForce => 0,
        ForceLevel::Force => 1,
        ForceLevel::ForceForce => 2,
    }
}

impl ForceLevel {
    /// The level for a flag given `n` times.
    pub fn from_count(n: u8) -> (r: ForceLevel)
        ensures
            rank(r) == if n >= 2 { 2 } else { n as int },
            r == level_of(n),
    {
        if n == 0 {
            ForceLevel::NoForce
        } else if n == 1 {
            ForceLevel::Force
        } else {
            ForceLevel::ForceForce
        }
    }

    pub fn at_least(self, other: ForceLevel) -> (r: bool)
        ensures
            r == (rank(self) >= rank(other)),
    {
        match (self, other) {
            (_, ForceLevel::NoForce) => true,
            (ForceLevel::NoForce, _) => false,
            (_, ForceLevel::Force) => true,
            (ForceLevel::Force, _) => false,
            (ForceLevel::ForceForce, ForceLevel::ForceForce) => true,
        }
    }
}

/// The decision on one removal request.
#[derive(Debug, Clone, Copy, PartialEq, Eq, Structural)]
pub enum Removal {
    /// A bare worktree is never removed this way.
    RejectBare,
    /// Locked, and the level is below force-force.
    RejectLocked,
    /// Remove, unlocking first when locked, passing the force flag through.
    Proceed { unlock: bool, force: bool },
}

pub open spec fn removal_spec(is_bare: bool, is_locked: bool, level: ForceLevel) -> Removal {
    if is_bare {
        Removal::RejectBare
    } else if is_locked && rank(level) < 2 {
        Removal::RejectLocked
    } else {
        Removal::Proceed { unlock: is_locked, force: rank(level) >= 1 }
    }
}

/// The force-level policy for removing `wt`.
pub fn removal_policy(wt: &Worktree, level: ForceLevel) -> (r: Removal)
    ensures
        r == removal_spec(wt.is_bare, wt.is_locked, level),
{
    if wt.is_bare {
        Removal::RejectBare
    } else if wt.is_locked && !level.at_least(ForceLevel::ForceForce) {
        Removal::RejectLocked
    } else {
        Removal::Proceed { unlock: wt.is_locked, force: level.at_least(ForceLevel::Force) }
    }
}

/// A locked worktree is refused at the levels below force-force and removed,
/// after an unlock, at force-force; a bare worktree is refused at every level.
pub proof fn lemma_force_policy(is_locked: bool, level: ForceLevel)
    ensures
        removal_spec(true, is_locked, level) == Removal::RejectBare,
        rank(level) < 2 ==> removal_spec(false, true, level) == Removal::RejectLocked,
        rank(level) == 2 ==> removal_spec(false, true, level) == (Removal::Proceed { unlock: true, force: true }),
        removal_spec(false, false, level) == (Removal::Proceed { unlock: false, force: rank(level) >= 1 }),
{
}

pub open spec fn report_text(label: Seq<char>, removed: Seq<Seq<char>>, errors: Seq<Seq<char>>) -> Seq<char> {
    let head = if removed.len() > 0 {
        label + joined(removed, ", "@)
    } else {
        seq![]
    };
    if errors.len() > 0 {
        let sep = if removed.len() > 0 {
            "\n"@
        } else {
            seq![]
        };
        head + sep + "Errors:\n  "@ + joined(errors, "\n  "@)
    } else {
        head
    }
}

/// The result of a batch: its report, as an error when nothing succeeded
/// and something went wrong.
pub open spec fn batch_result(label: Seq<char>, removed: Seq<Seq<char>>, errors: Seq<Seq<char>>) -> Result<Seq<char>, Seq<char>> {
    if removed.len() == 0 && errors.len() > 0 {
        Err(report_text(label, removed, errors))
    } else {
        Ok(report_text(label, removed, errors))
    }
}

/// The combined report of a batch, the succeeded items listed after `label`.
pub fn batch_report(label: &str, removed: &Vec<String>, errors: &Vec<String>) -> (r: Result<String, OuError>)
    ensures
        match batch_result(label@, string_views(removed@), string_views(errors@)) {
            Ok(m) => (r matches Ok(s) && s@ == m),
            Err(m) => (r matches Err(OuError::Git(s)) && s@ == m),
        },
{
    let mut msg = String::new();
    if removed.len() > 0 {
        msg = String::from_str(label).concat(join_strings(removed, ", ").as_str());
    }
    if errors.len() > 0 {
        if removed.len() > 0 {
            msg = msg.concat("\n");
        }
        msg = msg.concat("Errors:\n  ").concat(join_strings(errors, "\n  ").as_str());
    }
    if removed.len() == 0 && errors.len() > 0 {
        Err(OuError::Git(msg))
    } else {
        Ok(msg)
    }
}

/// The worktree checked out on branch `name`: the first in listing order.
pub open spec fn worktree_on(ws: Seq<WorktreeView>, name: Seq<char>) -> Option<WorktreeView>
    decreases ws.len(),
{
    if ws.len() == 0 {
        None
    } else if ws[0].branch == Some(name) {
        Some(ws[0])
    } else {
        worktree_on(ws.drop_first(), name)
    }
}

/// What removing the worktree of one branch comes to.
#[derive(Debug, Clone, PartialEq, Eq)]
pub enum RemovalStep {
    /// No worktree is on that branch.
    NotFound,
    /// The worktree is bare.
    Bare,
    /// The worktree is locked, with this reason, below force-force.
    Locked(String),
    /// Remove the worktree at `path`.
    Remove { path: String, unlock: bool, force: bool },
}

pub open spec fn lock_reason_text(w: WorktreeView) -> Seq<char> {
    match w.lock_reason {
        Some(r) => r,
        None => "no reason given"@,
    }
}

/// The step for branch `name` at force level `level`, as its view.
pub open spec fn step_matches(r: RemovalStep, ws: Seq<WorktreeView>, name: Seq<char>, level: ForceLevel) -> bool {
    match worktree_on(ws, name) {
        None => r == RemovalStep::NotFound,
        Some(w) => match removal_spec(w.is_bare, w.is_locked, level) {
            Removal::RejectBare => r == RemovalStep::Bare,
            Removal::RejectLocked => r matches RemovalStep::Locked(reason) && reason@ == lock_reason_text(w),
            Removal::Proceed { unlock, force } => r matches RemovalStep::Remove { path, unlock: u, force: f }
                && path@ == w.path && u == unlock && f == force,
        },
    }
}

/// Decides the removal of the worktree on branch `name`.
pub fn plan_removal(worktrees: &Vec<Worktree>, name: &String, level: ForceLevel) -> (r: RemovalStep)
    ensures
        step_matches(r, worktree_views(worktrees@), name@, level),
{
    let ghost all = worktree_views(worktrees@);
    let mut i: usize = 0;
    assert(all.subrange(0, all.len() as int) == all);
    while i < worktrees.len()
        invariant
            all == worktree_views(worktrees@),
            i <= worktrees.len(),
            worktree_on(all.subrange(i as int, all.len() as int), name@) == worktree_on(all, name@),
        decreases worktrees.len() - i,
    {
        let ghost rest = all.subrange(i as int, all.len() as int);
        assert(rest.drop_first() == all.subrange(i + 1, all.len() as int));
        assert(rest[0] == worktrees@[i as int]@);
        let w = &worktrees[i];
        let on_branch = match &w.branch {
            Some(b) => *b == *name,
            None => false,
        };
        if on_branch {
            assert(worktree_on(all, name@) == Some(w@));
            return match removal_policy(w, level) {
                Removal::RejectBare => RemovalStep::Bare,
                Removal::RejectLocked => RemovalStep::Locked(
                    match &w.lock_reason {
                        Some(r) => r.clone(),
                        None => String::from_str("no reason given"),
                    },
                ),
                Removal::Proceed { unlock, force } => RemovalStep::Remove { path: w.path.clone(), unlock, force },
            };
        }
        i += 1;
    }
    assert(all.subrange(i as int, all.len() as int).len() == 0);
    RemovalStep::NotFound
}

/// Whether locks and uncommitted changes are overridden is the policy's;
/// a locked worktree at force-force is unlocked first.
pub proof fn lemma_step_follows_policy(ws: Seq<WorktreeView>, name: Seq<char>, level: ForceLevel, r: RemovalStep)
    requires
        step_matches(r, ws, name, level),
        worktree_on(ws, name) matches Some(w) && w.is_locked && !w.is_bare,
    ensures
        rank(level) < 2 ==> r is Locked,
        rank(level) == 2 ==> (r matches RemovalStep::Remove { unlock, force, .. } && unlock && force),
{
}

fn cat3(a: &str, b: &str, c: &str) -> (r: String)
    ensures
        r@ == a@ + b@ + c@,
{
    String::from_str(a).concat(b).concat(c)
}

/// The entry of one branch in the report: its name when removed, else the
/// error text. `failure` is the message of a failed unlock or removal.
pub open spec fn entry_of(name: Seq<char>, step: RemovalStep, failure: Option<Seq<char>>) -> Result<Seq<char>, Seq<char>> {
    match step {
        RemovalStep::NotFound => Err("worktree for branch '"@ + name + "' not found"@),
        RemovalStep::Bare => Err("cannot remove bare worktree '"@ + name + "'"@),
        RemovalStep::Locked(reason) => Err("worktree '"@ + name + "' is locked: "@ + reason@ + " (use -ff to force)"@),
        RemovalStep::Remove { .. } => match failure {
            None => Ok(name),
            Some(m) => Err("failed to remove worktree '"@ + name + "': "@ + m),
        },
    }
}

pub fn removal_entry(name: &String, step: &RemovalStep, failure: &Option<String>) -> (r: Result<String, String>)
    ensures
        match entry_of(name@, *step, opt_str(*failure)) {
            Ok(n) => (r matches Ok(s) && s@ == n),
            Err(m) => (r matches Err(s) && s@ == m),
        },
{
    match step {
        RemovalStep::NotFound => Err(cat3("worktree for branch '", name.as_str(), "' not found")),
        RemovalStep::Bare => Err(cat3("cannot remove bare worktree '", name.as_str(), "'")),
        RemovalStep::Locked(reason) => Err(
            cat3("worktree '", name.as_str(), "' is locked: ").concat(reason.as_str()).concat(" (use -ff to force)"),
        ),
        RemovalStep::Remove { .. } => match failure {
            None => Ok(name.clone()),
            Some(m) => Err(cat3("failed to remove worktree '", name.as_str(), "': ").concat(m.as_str())),
        },
    }
}

pub open spec fn opt_strs(v: Seq<Option<String>>) -> Seq<Option<Seq<char>>> {
    v.map_values(|o: Option<String>| opt_str(o))
}

/// The names removed, in order.
pub open spec fn removed_of(names: Seq<Seq<char>>, steps: Seq<RemovalStep>, fails: Seq<Option<Seq<char>>>) -> Seq<Seq<char>>
    decreases names.len(),
{
    if names.len() == 0 || steps.len() == 0 || fails.len() == 0 {
        seq![]
    } else {
        let rest = removed_of(names.drop_last(), steps.drop_last(), fails.drop_last());
        match entry_of(names.last(), steps.last(), fails.last()) {
            Ok(n) => rest.push(n),
            Err(_) => rest,
        }
    }
}

/// The error entries, in order.
pub open spec fn errors_of(names: Seq<Seq<char>>, steps: Seq<RemovalStep>, fails: Seq<Option<Seq<char>>>) -> Seq<Seq<char>>
    decreases names.len(),
{
    if names.len() == 0 || steps.len() == 0 || fails.len() == 0 {
        seq![]
    } else {
        let rest = errors_of(names.drop_last(), steps.drop_last(), fails.drop_last());
        match entry_of(names.last(), steps.last(), fails.last()) {
            Ok(_) => rest,
            Err(m) => rest.push(m),
        }
    }
}

proof fn lemma_entries_count(names: Seq<Seq<char>>, steps: Seq<RemovalStep>, fails: Seq<Option<Seq<char>>>)
    requires
        names.len() == steps.len() == fails.len(),
    ensures
        removed_of(names, steps, fails).len() + errors_of(names, steps, fails).len() == names.len(),
    decreases names.len(),
{
    if names.len() > 0 {
        lemma_entries_count(names.drop_last(), steps.drop_last(), fails.drop_last());
    }
}

/// The report of a removal batch from its steps and the failures of the
/// removals carried out (`fails[i]` matters only for a removal step).
pub fn removal_report(names: &Vec<String>, steps: &Vec<RemovalStep>, fails: &Vec<Option<String>>) -> (r: Result<String, OuError>)
    requires
        names.len() == steps.len(),
        names.len() == fails.len(),
    ensures
        match batch_result(
            "Removed: "@,
            removed_of(string_views(names@), steps@, opt_strs(fails@)),
            errors_of(string_views(names@), steps@, opt_strs(fails@)),
        ) {
            Ok(m) => (r matches Ok(s) && s@ == m),
            Err(m) => (r matches Err(OuError::Git(s)) && s@ == m),
        },
{
    let ghost ns = string_views(names@);
    let ghost fs = opt_strs(fails@);
    let mut removed: Vec<String> = Vec::new();
    let mut errors: Vec<String> = Vec::new();
    let mut i: usize = 0;
    while i < names.len()
        invariant
            names.len() == steps.len(),
            names.len() == fails.len(),
            ns == string_views(names@),
            fs == opt_strs(fails@),
            i <= names.len(),
            string_views(removed@) == removed_of(ns.subrange(0, i as int), steps@.subrange(0, i as int), fs.subrange(0, i as int)),
            string_views(errors@) == errors_of(ns.subrange(0, i as int), steps@.subrange(0, i as int), fs.subrange(0, i as int)),
        decreases names.len() - i,
    {
        assert(ns.subrange(0, i + 1).drop_last() == ns.subrange(0, i as int));
        assert(steps@.subrange(0, i + 1).drop_last() == steps@.subrange(0, i as int));
        assert(fs.subrange(0, i + 1).drop_last() == fs.subrange(0, i as int));
        assert(ns.subrange(0, i + 1).last() == names@[i as int]@);
        assert(fs.subrange(0, i + 1).last() == opt_str(fails@[i as int]));
        let ghost br = string_views(removed@);
        let ghost be = string_views(errors@);
        match removal_entry(&names[i], &steps[i], &fails[i]) {
            Ok(n) => {
                removed.push(n);
                assert(string_views(removed@) == br.push(removed@[removed.len() - 1]@));
            },
            Err(m) => {
                errors.push(m);
                assert(string_views(errors@) == be.push(errors@[errors.len() - 1]@));
            },
        }
        i += 1;
    }
    assert(ns.subrange(0, i as int) == ns);
    assert(steps@.subrange(0, i as int) == steps@);
    assert(fs.subrange(0, i as int) == fs);
    batch_report("Removed: ", &removed, &errors)
}

/// The result of a removal batch over the listing `ws` with these steps
/// and these failures of the removals carried out.
pub open spec fn batch_with(
    r: Result<Outcome, OuError>,
    ws: Seq<WorktreeView>,
    names: Seq<Seq<char>>,
    level: ForceLevel,
    steps: Seq<RemovalStep>,
    fails: Seq<Option<Seq<char>>>,
) -> bool {
    &&& steps.len() == names.len()
    &&& fails.len() == names.len()
    &&& forall|i: int| 0 <= i < names.len() ==> step_matches(#[trigger] steps[i], ws, names[i], level)
    &&& match batch_result("Removed: "@, removed_of(names, steps, fails), errors_of(names, steps, fails)) {
        Ok(m) => (r matches Ok(o) && o.message@ == m),
        Err(m) => (r matches Err(OuError::Git(s)) && s@ == m),
    }
}

/// The results a removal batch over the listing `ws` can have: the steps
/// are the policy's for each name; only the failures of the removals
/// carried out are left to the tool.
pub open spec fn removal_batch_ok(
    r: Result<Outcome, OuError>,
    ws: Seq<WorktreeView>,
    names: Seq<Seq<char>>,
    level: ForceLevel,
) -> bool {
    exists|steps: Seq<RemovalStep>, fails: Seq<Option<Seq<char>>>| batch_with(r, ws, names, level, steps, fails)
}

/// Removes the worktrees of the named branches, given the current listing,
/// then deletes the branches. A failure for one branch becomes an error
/// entry and the rest go on; a branch deletion failure is a warning.
pub fn remove_branches<E: GitExecutor>(
    git: &GitRunner<E>,
    worktrees: &Vec<Worktree>,
    branches: &Vec<String>,
    level: ForceLevel,
) -> (r: Result<Outcome, OuError>)
    ensures
        removal_batch_ok(r, worktree_views(worktrees@), string_views(branches@), level),
{
    let ghost ws = worktree_views(worktrees@);
    let mut steps: Vec<RemovalStep> = Vec::new();
    let mut fails: Vec<Option<String>> = Vec::new();
    let mut warnings: Vec<String> = Vec::new();
    let mut i: usize = 0;
    while i < branches.len()
        invariant
            ws == worktree_views(worktrees@),
            i <= branches.len(),
            steps.len() == i,
            fails.len() == i,
            forall|k: int| 0 <= k < i ==> step_matches(#[trigger] steps@[k], ws, branches@[k]@, level),
        decreases branches.len() - i,
    {
        let name = &branches[i];
        let step = plan_removal(worktrees, name, level);
        let mut failure: Option<String> = None;
        if let RemovalStep::Remove { path, unlock, force } = &step {
            let mut unlocked = true;
            if *unlock {
                if let Err(e) = git.worktree_unlock(path.as_str()) {
                    failure = Some(e.message());
                    unlocked = false;
                }
            }
            if unlocked {
                match git.worktree_remove(path.as_str(), *force) {
                    Ok(()) => {
                        if let Err(e) = git.branch_delete(name.as_str(), *force) {
                            warnings.push(
                                String::from_str("worktree removed but branch deletion failed: ").concat(
                                    e.message().as_str(),
                                ),
                            );
                        }
                    },
                    Err(e) => {
                        failure = Some(e.message());
                    },
                }
            }
        }
        steps.push(step);
        fails.push(failure);
        i += 1;
    }
    let report = removal_report(branches, &steps, &fails);
    let r = match report {
        Ok(message) => Ok(Outcome { message, warnings }),
        Err(e) => Err(e),
    };
    assert(batch_with(r, ws, string_views(branches@), level, steps@, opt_strs(fails@)));
    r
}

/// Removes the worktrees of the named branches and then the branches, at
/// the force level that the flag count gives.
pub fn run<E: GitExecutor>(git: &GitRunner<E>, args: &RemoveArgs) -> (r: Result<Outcome, OuError>)
    ensures
        args.branches.len() == 0 ==> (r matches Err(OuError::Git(m)) && m@ == "no branches specified"@),
        args.branches.len() > 0 && r is Ok ==> (r matches Ok(o) && has_prefix(o.message@, "Removed: "@)),
        args.branches.len() > 0 && r is Ok ==> exists|s: Seq<char>|
            removal_batch_ok(r, #[trigger] worktree_listing(s), string_views(args.branches@), level_of(args.force)),
{
    if args.branches.len() == 0 {
        return Err(OuError::Git(String::from_str("no branches specified")));
    }
    let worktrees = git.worktree_list()?;
    let level = ForceLevel::from_count(args.force);
    let r = remove_branches(git, &worktrees, &args.branches, level);
    proof {
        let names = string_views(args.branches@);
        let ws = worktree_views(worktrees@);
        let (st, fl) = choose|st: Seq<RemovalStep>, fl: Seq<Option<Seq<char>>>| batch_with(r, ws, names, level, st, fl);
        lemma_entries_count(names, st, fl);
        if r is Ok {
            let rm = removed_of(names, st, fl);
            let er = errors_of(names, st, fl);
            assert(rm.len() > 0);
            let body = "Removed: "@ + joined(rm, ", "@);
            lemma_prefix_of_concat("Removed: "@, joined(rm, ", "@));
            if er.len() > 0 {
                let tail = "\n"@ + "Errors:\n  "@ + joined(er, "\n  "@);
                lemma_prefix_extends(body, tail, "Removed: "@);
                assert(body + "\n"@ + "Errors:\n  "@ + joined(er, "\n  "@) == body + tail);
            }
        }
    }
    r
}

pub open spec fn level_of(n: u8) -> ForceLevel {
    if n == 0 {
        ForceLevel::NoForce
    } else if n == 1 {
        ForceLevel::Force
    } else {
        ForceLevel::ForceForce
    }
}

} // verus!

verus! {

proof fn lemma_single_entry(name: Seq<char>, step: RemovalStep, fail: Option<Seq<char>>, e: Seq<char>)
    requires
        entry_of(name, step, fail) == Err::<Seq<char>, Seq<char>>(e),
    ensures
        removed_of(seq![name], seq![step], seq![fail]) == Seq::<Seq<char>>::empty(),
        errors_of(seq![name], seq![step], seq![fail]) == seq![e],
        batch_result("Removed: "@, seq![], seq![e]) == Err::<Seq<char>, Seq<char>>("Errors:\n  "@ + e),
{
    let n: Seq<Seq<char>> = seq![name];
    let s: Seq<RemovalStep> = seq![step];
    let f: Seq<Option<Seq<char>>> = seq![fail];
    assert(n.drop_last() == Seq::<Seq<char>>::empty());
    assert(s.drop_last() == Seq::<RemovalStep>::empty());
    assert(f.drop_last() == Seq::<Option<Seq<char>>>::empty());
    assert(n.last() == name && s.last() == step && f.last() == fail);
    assert(removed_of(n.drop_last(), s.drop_last(), f.drop_last()) == Seq::<Seq<char>>::empty());
    assert(errors_of(n.drop_last(), s.drop_last(), f.drop_last()) == Seq::<Seq<char>>::empty());
    assert(Seq::<Seq<char>>::empty().push(e) == seq![e]);
    let es: Seq<Seq<char>> = seq![e];
    assert(es.len() == 1);
    assert(joined(es, "\n  "@) == e);
    assert(Seq::<char>::empty() + Seq::<char>::empty() + "Errors:\n  "@ + e == "Errors:\n  "@ + e);
}

/// Removing the worktree of a single locked branch below force-force fails
/// with an error that names the lock reason and the flag that overrides it,
/// whatever the tool would have answered.
pub proof fn lemma_locked_branch_refused(
    r: Result<Outcome, OuError>,
    ws: Seq<WorktreeView>,
    name: Seq<char>,
    level: ForceLevel,
    w: WorktreeView,
)
    requires
        removal_batch_ok(r, ws, seq![name], level),
        worktree_on(ws, name) == Some(w),
        w.is_locked,
        !w.is_bare,
        rank(level) < 2,
    ensures
        r matches Err(OuError::Git(m)) && m@ == "Errors:\n  "@ + ("worktree '"@ + name + "' is locked: "@
            + lock_reason_text(w) + " (use -ff to force)"@),
{
    let names: Seq<Seq<char>> = seq![name];
    let (st, fl) = choose|st: Seq<RemovalStep>, fl: Seq<Option<Seq<char>>>| batch_with(r, ws, names, level, st, fl);
    assert(step_matches(st[0], ws, names[0], level));
    let e = "worktree '"@ + name + "' is locked: "@ + lock_reason_text(w) + " (use -ff to force)"@;
    assert(st == seq![st[0]]);
    assert(fl == seq![fl[0]]);
    lemma_single_entry(name, st[0], fl[0], e);
}

/// Removing the worktree of a single bare branch fails at every level.
pub proof fn lemma_bare_branch_refused(
    r: Result<Outcome, OuError>,
    ws: Seq<WorktreeView>,
    name: Seq<char>,
    level: ForceLevel,
    w: WorktreeView,
)
    requires
        removal_batch_ok(r, ws, seq![name], level),
        worktree_on(ws, name) == Some(w),
        w.is_bare,
    ensures
        r matches Err(OuError::Git(m)) && m@ == "Errors:\n  "@ + ("cannot remove bare worktree '"@ + name + "'"@),
{
    let names: Seq<Seq<char>> = seq![name];
    let (st, fl) = choose|st: Seq<RemovalStep>, fl: Seq<Option<Seq<char>>>| batch_with(r, ws, names, level, st, fl);
    assert(step_matches(st[0], ws, names[0], level));
    assert(st == seq![st[0]]);
    assert(fl == seq![fl[0]]);
    lemma_single_entry(name, st[0], fl[0], "cannot remove bare worktree '"@ + name + "'"@);
}

/// At force-force a locked worktree is unlocked and removed: when neither
/// the unlock nor the removal failed, the branch is reported removed.
pub proof fn lemma_locked_branch_removed_at_force_force(
    r: Result<Outcome, OuError>,
    ws: Seq<WorktreeView>,
    name: Seq<char>,
    w: WorktreeView,
    st: Seq<RemovalStep>,
    fl: Seq<Option<Seq<char>>>,
)
    requires
        batch_with(r, ws, seq![name], ForceLevel::ForceForce, st, fl),
        worktree_on(ws, name) == Some(w),
        !w.is_bare,
        fl[0] is None,
    ensures
        st[0] matches RemovalStep::Remove { unlock, force, .. } && unlock == w.is_locked && force,
        r matches Ok(o) && o.message@ == "Removed: "@ + name,
{
    let names: Seq<Seq<char>> = seq![name];
    assert(step_matches(st[0], ws, names[0], ForceLevel::ForceForce));
    assert(st == seq![st[0]]);
    assert(fl == seq![fl[0]]);
    assert(names.drop_last() == Seq::<Seq<char>>::empty());
    assert(st.drop_last() == Seq::<RemovalStep>::empty());
    assert(fl.drop_last() == Seq::<Option<Seq<char>>>::empty());
    assert(names.last() == name && st.last() == st[0] && fl.last() == fl[0]);
    assert(removed_of(names.drop_last(), st.drop_last(), fl.drop_last()) == Seq::<Seq<char>>::empty());
    assert(errors_of(names.drop_last(), st.drop_last(), fl.drop_last()) == Seq::<Seq<char>>::empty());
    assert(Seq::<Seq<char>>::empty().push(name) == seq![name]);
    let rm: Seq<Seq<char>> = seq![name];
    assert(removed_of(names, st, fl) == rm);
    assert(errors_of(names, st, fl) == Seq::<Seq<char>>::empty());
    assert(joined(rm, ", "@) == name);
}

} // verus!
