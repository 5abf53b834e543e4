//! Creating a worktree: branch, directory, symlinks, and the optional lock,
//! submodules, carried changes and terminal tab.

use vstd::prelude::*;
use vstd::string::StringExecFns;

use crate::cli::AddArgs;
use crate::config::{base_dir_of, source_branch_of, Config, ConfigView};
use crate::git::types::opt_str;
use crate::path::join_path;
use crate::result::Outcome;
use crate::error::OuError;
use crate::fs::FileSystem;
use crate::git::executor::GitExecutor;
use crate::git::runner::GitRunner;
use crate::multiplexer::Multiplexer;
use crate::path::join;
use crate::symlink::create_symlinks;
use crate::text::{
    chars_of, has_prefix, lemma_prefix_extends, lemma_prefix_of_concat, replace_all, replace_chars, string_of,
};

verus! {

/// The directory name for a branch: separators become dashes.
pub open spec fn dir_name_spec(name: Seq<char>) -> Seq<char> {
    replace_all(name, seq!['/'], seq!['-'])
}

pub fn worktree_dir_name(name: &str) -> (r: String)
    ensures
        r@ == dir_name_spec(name@),
{
    let mut pat: Vec<char> = Vec::new();
    pat.push('/');
    let mut rep: Vec<char> = Vec::new();
    rep.push('-');
    assert(pat@ == seq!['/']);
    assert(rep@ == seq!['-']);
    string_of(&replace_chars(&chars_of(name), &pat, &rep))
}

/// The title of the tab to open for a new worktree, when the terminal
/// integration asks for one: the template with `{name}` replaced, or else
/// the name itself.
pub open spec fn tab_title_spec(c: ConfigView, name: Seq<char>) -> Option<Seq<char>> {
    match c.wezterm {
        Some(w) => if w.auto_open {
            match w.tab_title_template {
                Some(t) => Some(replace_all(t, "{name}"@, name)),
                None => Some(name),
            }
        } else {
            None
        },
        None => None,
    }
}

pub fn tab_title(config: &Config, name: &str) -> (r: Option<String>)
    ensures
        match r {
            Some(t) => tab_title_spec(config@, name@) == Some(t@),
            None => tab_title_spec(config@, name@) is None,
        },
{
    match &config.wezterm {
        Some(w) => {
            if w.auto_open {
                match &w.tab_title_template {
                    Some(t) => {
                        let pat = chars_of("{name}");
                        proof {
                            reveal_strlit("{name}");
                        }
                        assert(pat.len() > 0);
                        Some(string_of(&replace_chars(&chars_of(t.as_str()), &pat, &chars_of(name))))
                    },
                    None => Some(String::from_str(name)),
                }
            } else {
                None
            }
        },
        None => None,
    }
}

/// What adding a worktree comes to, before anything is changed.
#[derive(Debug, Clone)]
pub struct AddPlan {
    pub base_dir: String,
    pub wt_path: String,
    /// The branch the new one starts from.
    pub source: String,
    /// The stash message, when uncommitted changes are carried.
    pub stash_message: Option<String>,
    pub lock: bool,
    /// The reason recorded with the lock.
    pub lock_reason: Option<String>,
    pub init_submodules: bool,
}

/// The path of the new worktree: its directory name under the base
/// directory.
pub open spec fn wt_path_spec(c: ConfigView, name: Seq<char>, repo_root: Seq<char>, common_dir: Seq<char>) -> Seq<char> {
    join_path(base_dir_of(c, repo_root, common_dir), dir_name_spec(name))
}

pub open spec fn add_plan_ok(p: AddPlan, c: ConfigView, args: AddArgs, repo_root: Seq<char>, common_dir: Seq<char>) -> bool {
    &&& p.base_dir@ == base_dir_of(c, repo_root, common_dir)
    &&& p.wt_path@ == wt_path_spec(c, args.name@, repo_root, common_dir)
    &&& p.source@ == match args.source {
        Some(s) => s@,
        None => source_branch_of(c),
    }
    &&& opt_str(p.stash_message) == if args.carry {
        Some("ou-carry: "@ + args.name@)
    } else {
        None
    }
    &&& p.lock == args.lock
    &&& opt_str(p.lock_reason) == opt_str(args.reason)
    &&& p.init_submodules == (args.init_submodules || c.init_submodules)
}

/// Plans the worktree for `args` in the repository at `repo_root` whose
/// metadata directory is `common_dir`.
pub fn plan_add(config: &Config, args: &AddArgs, repo_root: &str, common_dir: &str) -> (r: AddPlan)
    ensures
        add_plan_ok(r, config@, *args, repo_root@, common_dir@),
{
    let base_dir = config.worktree_base_dir(repo_root, common_dir);
    let wt_name = worktree_dir_name(args.name.as_str());
    let wt_path = join(base_dir.as_str(), wt_name.as_str());
    let source = match &args.source {
        Some(s) => s.clone(),
        None => String::from_str(config.default_source_branch()),
    };
    let stash_message = if args.carry {
        Some(String::from_str("ou-carry: ").concat(args.name.as_str()))
    } else {
        None
    };
    AddPlan {
        base_dir,
        wt_path,
        source,
        stash_message,
        lock: args.lock,
        lock_reason: match &args.reason {
            Some(r) => Some(r.clone()),
            None => None,
        },
        init_submodules: args.init_submodules || config.init_submodules,
    }
}

fn io_error(e: String) -> (r: OuError)
    ensures
        r == OuError::Io(e),
{
    OuError::Io(e)
}

/// One step of adding a worktree.
#[derive(Debug, Clone, PartialEq, Eq)]
pub enum AddStep {
    /// Stop: the directory is there already.
    AlreadyExists,
    /// Move the uncommitted changes into the stash with this message.
    StashPush(String),
    /// Make the base directory.
    MakeBaseDir(String),
    /// Create the worktree at `path` on the new `branch` from `source`.
    CreateWorktree { path: String, branch: String, source: String },
    /// Link the configured patterns into the worktree at this path.
    LinkPatterns(String),
    Lock { path: String, reason: Option<String> },
    InitSubmodules(String),
    /// Bring the carried changes back out of the stash.
    StashPop,
}

pub enum AddStepView {
    AlreadyExists,
    StashPush(Seq<char>),
    MakeBaseDir(Seq<char>),
    CreateWorktree(Seq<char>, Seq<char>, Seq<char>),
    LinkPatterns(Seq<char>),
    Lock(Seq<char>, Option<Seq<char>>),
    InitSubmodules(Seq<char>),
    StashPop,
}

impl View for AddStep {
    type V = AddStepView;

    open spec fn view(&self) -> AddStepView {
        match self {
            AddStep::AlreadyExists => AddStepView::AlreadyExists,
            AddStep::StashPush(m) => AddStepView::StashPush(m@),
            AddStep::MakeBaseDir(d) => AddStepView::MakeBaseDir(d@),
            AddStep::CreateWorktree { path, branch, source } => AddStepView::CreateWorktree(path@, branch@, source@),
            AddStep::LinkPatterns(t) => AddStepView::LinkPatterns(t@),
            AddStep::Lock { path, reason } => AddStepView::Lock(path@, opt_str(*reason)),
            AddStep::InitSubmodules(p) => AddStepView::InitSubmodules(p@),
            AddStep::StashPop => AddStepView::StashPop,
        }
    }
}

pub open spec fn step_views(v: Seq<AddStep>) -> Seq<AddStepView> {
    v.map_values(|s: AddStep| s@)
}

/// What adding comes to, given whether the directory exists, whether the
/// stash push saved changes, and whether there are patterns to link: an
/// existing directory stops everything; otherwise, in order, the stash push
/// (when carrying), the base directory, the worktree, the links, the lock,
/// the submodules, and the stash pop (when something was carried).
pub open spec fn add_steps_spec(p: AddPlan, name: Seq<char>, dir_exists: bool, carried: bool, has_patterns: bool) -> Seq<AddStepView> {
    if dir_exists {
        seq![AddStepView::AlreadyExists]
    } else {
        let wt = p.wt_path@;
        let a = match p.stash_message {
            Some(m) => seq![AddStepView::StashPush(m@)],
            None => seq![],
        };
        let b = a + seq![AddStepView::MakeBaseDir(p.base_dir@), AddStepView::CreateWorktree(wt, name, p.source@)];
        let c = if has_patterns { b.push(AddStepView::LinkPatterns(wt)) } else { b };
        let d = if p.lock { c.push(AddStepView::Lock(wt, opt_str(p.lock_reason))) } else { c };
        let e = if p.init_submodules { d.push(AddStepView::InitSubmodules(wt)) } else { d };
        if carried { e.push(AddStepView::StashPop) } else { e }
    }
}

pub fn add_steps(p: &AddPlan, name: &str, dir_exists: bool, carried: bool, has_patterns: bool) -> (r: Vec<AddStep>)
    ensures
        step_views(r@) == add_steps_spec(*p, name@, dir_exists, carried, has_patterns),
{
    let mut v: Vec<AddStep> = Vec::new();
    if dir_exists {
        v.push(AddStep::AlreadyExists);
        assert(step_views(v@) == add_steps_spec(*p, name@, dir_exists, carried, has_patterns));
        return v;
    }
    if let Some(m) = &p.stash_message {
        v.push(AddStep::StashPush(m.clone()));
    }
    v.push(AddStep::MakeBaseDir(p.base_dir.clone()));
    v.push(AddStep::CreateWorktree { path: p.wt_path.clone(), branch: String::from_str(name), source: p.source.clone() });
    if has_patterns {
        v.push(AddStep::LinkPatterns(p.wt_path.clone()));
    }
    if p.lock {
        let reason = match &p.lock_reason {
            Some(r) => Some(r.clone()),
            None => None,
        };
        v.push(AddStep::Lock { path: p.wt_path.clone(), reason });
    }
    if p.init_submodules {
        v.push(AddStep::InitSubmodules(p.wt_path.clone()));
    }
    if carried {
        v.push(AddStep::StashPop);
    }
    assert(step_views(v@) == add_steps_spec(*p, name@, dir_exists, carried, has_patterns));
    v
}

/// The steps with the changes carried are those without, then the pop.
pub proof fn lemma_pop_comes_last(p: AddPlan, name: Seq<char>, has_patterns: bool)
    ensures
        add_steps_spec(p, name, false, true, has_patterns)
            == add_steps_spec(p, name, false, false, has_patterns).push(AddStepView::StashPop),
{
}

/// Creates the worktree for `args.name` under the configured base
/// directory: carries out the steps of `add_steps` in order, for the
/// directory's presence as the filesystem answers it and for what the
/// stash push answered (the closing pop is the one step that depends on
/// it). A failure to open the terminal tab is a warning.
pub fn run<E: GitExecutor, F: FileSystem, M: Multiplexer>(
    git: &GitRunner<E>,
    fs: &F,
    config: &Config,
    args: &AddArgs,
    mux: Option<&M>,
) -> (r: Result<Outcome, OuError>)
    ensures
        r matches Ok(o) ==> exists|root: Seq<char>, common: Seq<char>|
            has_prefix(
                o.message@,
                "Created worktree '"@ + args.name@ + "' at "@ + #[trigger] wt_path_spec(config@, args.name@, root, common),
            ),
{
    let repo_root = git.get_toplevel()?;
    let common_dir = git.get_common_dir()?;
    let plan = plan_add(config, args, repo_root.as_str(), common_dir.as_str());
    let patterns = config.all_symlinks();
    let dir_exists = fs.path_exists(plan.wt_path.as_str());
    let steps = add_steps(&plan, args.name.as_str(), dir_exists, false, patterns.len() > 0);
    let mut carried = false;
    let mut k: usize = 0;
    while k < steps.len()
        invariant
            k <= steps.len(),
        decreases steps.len() - k,
    {
        match &steps[k] {
            AddStep::AlreadyExists => {
                return Err(OuError::WorktreeAlreadyExists(args.name.clone()));
            },
            AddStep::StashPush(m) => {
                carried = git.stash_push(m.as_str())?;
            },
            AddStep::MakeBaseDir(d) => {
                if let Err(e) = fs.mkdir_all(d.as_str()) {
                    return Err(io_error(e));
                }
            },
            AddStep::CreateWorktree { path, branch, source } => {
                git.worktree_add(path.as_str(), branch.as_str(), Some(source.as_str()))?;
            },
            AddStep::LinkPatterns(t) => {
                create_symlinks(fs, repo_root.as_str(), t.as_str(), &patterns)?;
            },
            AddStep::Lock { path, reason } => {
                let reason = match reason {
                    Some(r) => Some(r.as_str()),
                    None => None,
                };
                git.worktree_lock(path.as_str(), reason)?;
            },
            AddStep::InitSubmodules(p) => {
                git.init_submodules(p.as_str())?;
            },
            AddStep::StashPop => {
                git.stash_pop()?;
            },
        }
        k += 1;
    }
    if carried {
        git.stash_pop()?;
    }
    let ghost head = "Created worktree '"@ + args.name@ + "' at "@ + plan.wt_path@;
    let mut msg = String::from_str("Created worktree '").concat(args.name.as_str()).concat("' at ").concat(
        plan.wt_path.as_str(),
    );
    proof {
        lemma_prefix_of_concat(head, seq![]);
        assert(head + Seq::<char>::empty() == head);
    }
    if plan.lock {
        proof {
            lemma_prefix_extends(msg@, " [locked]"@, head);
        }
        msg = msg.concat(" [locked]");
    }
    let mut warnings: Vec<String> = Vec::new();
    if let Some(title) = tab_title(config, args.name.as_str()) {
        if let Some(m) = mux {
            match m.open_tab(plan.wt_path.as_str(), Some(title.as_str())) {
                Ok(pane_id) => {
                    let tail = String::from_str(" (opened in ").concat(m.name()).concat(" pane ").concat(
                        pane_id.as_str(),
                    ).concat(")");
                    proof {
                        lemma_prefix_extends(msg@, tail@, head);
                    }
                    msg = msg.concat(tail.as_str());
                },
                Err(e) => {
                    warnings.push(String::from_str("failed to open tab: ").concat(e.message().as_str()));
                },
            }
        }
    }
    assert(has_prefix(msg@, "Created worktree '"@ + args.name@ + "' at "@ + wt_path_spec(config@, args.name@, repo_root@, common_dir@)));
    Ok(Outcome { message: msg, warnings })
}

} // verus!
