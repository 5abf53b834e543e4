use std::cell::RefCell;
use std::collections::{BTreeMap, BTreeSet, VecDeque};

use ou::cli::{AddArgs, CleanArgs, RemoveArgs};
use ou::commands::clean::{clean_candidates, clean_reason, clean_report, CleanCandidate};
use ou::commands::remove::{batch_report, plan_removal, removal_policy, ForceLevel, Removal, RemovalStep};
use ou::commands::{add, clean, init, remove};
use ou::config::Config;
use ou::error::OuError;
use ou::fs::{select_matches, FileSystem};
use ou::git::executor::GitExecutor;
use ou::git::runner::{pick_default_branch, GitRunner};
use ou::git::types::{Branch, CommandOutput, Worktree};
use ou::multiplexer::{Multiplexer, TabInfo};
use ou::result::FormatResult;
use ou::commands::add::{add_steps, AddStep};
use ou::commands::init::init_plan;
use ou::config::read_answer;
use ou::git::runner::current_branch_of;
use ou::commands::sync::{sync_names_of, sync_source};
use ou::tui::app::{DashboardKey, KeyOutcome};

struct ScriptedGit {
    answers: RefCell<VecDeque<CommandOutput>>,
    calls: RefCell<Vec<Vec<String>>>,
}

impl ScriptedGit {
    fn new(answers: Vec<(i32, &str)>) -> Self {
        ScriptedGit {
            answers: RefCell::new(
                answers
                    .into_iter()
                    .map(|(status, out)| CommandOutput { stdout: out.to_string(), stderr: String::new(), status })
                    .collect(),
            ),
            calls: RefCell::new(Vec::new()),
        }
    }
}

impl GitExecutor for ScriptedGit {
    fn run(&self, args: &Vec<String>) -> Result<CommandOutput, OuError> {
        self.calls.borrow_mut().push(args.clone());
        self.answers
            .borrow_mut()
            .pop_front()
            .ok_or_else(|| OuError::Git("no more mock responses".to_string()))
    }
}

impl<'a> GitExecutor for &'a ScriptedGit {
    fn run(&self, args: &Vec<String>) -> Result<CommandOutput, OuError> {
        (**self).run(args)
    }
}

struct MemFs {
    files: RefCell<BTreeMap<String, String>>,
    dirs: RefCell<BTreeSet<String>>,
    links: RefCell<Vec<(String, String)>>,
}

impl MemFs {
    fn new() -> Self {
        MemFs { files: RefCell::new(BTreeMap::new()), dirs: RefCell::new(BTreeSet::new()), links: RefCell::new(Vec::new()) }
    }
}

impl FileSystem for MemFs {
    fn symlink(&self, source: &str, link: &str) -> Result<(), String> {
        self.links.borrow_mut().push((source.to_string(), link.to_string()));
        Ok(())
    }
    fn path_exists(&self, path: &str) -> bool {
        self.files.borrow().contains_key(path) || self.dirs.borrow().contains(path)
    }
    fn is_dir(&self, path: &str) -> bool {
        self.dirs.borrow().contains(path)
    }
    fn is_symlink(&self, path: &str) -> bool {
        self.links.borrow().iter().any(|(_, l)| l == path)
    }
    fn read_to_string(&self, path: &str) -> Result<String, String> {
        self.files.borrow().get(path).cloned().ok_or_else(|| "not found".to_string())
    }
    fn write(&self, path: &str, contents: &str) -> Result<(), String> {
        self.files.borrow_mut().insert(path.to_string(), contents.to_string());
        Ok(())
    }
    fn mkdir_all(&self, path: &str) -> Result<(), String> {
        self.dirs.borrow_mut().insert(path.to_string());
        Ok(())
    }
    fn remove_dir_all(&self, path: &str) -> Result<(), String> {
        self.dirs.borrow_mut().remove(path);
        Ok(())
    }
    fn remove_file(&self, path: &str) -> Result<(), String> {
        self.files.borrow_mut().remove(path);
        Ok(())
    }
    fn glob(&self, dir: &str, pattern: &str) -> Result<Vec<String>, String> {
        let prefix = format!("{}/", dir.trim_end_matches('/'));
        let rels: Vec<String> =
            self.files.borrow().keys().filter_map(|p| p.strip_prefix(&prefix).map(|r| r.to_string())).collect();
        let hits = select_matches(pattern, &rels).map_err(|e| e.message())?;
        Ok(hits.into_iter().map(|r| format!("{prefix}{r}")).collect())
    }
    fn canonicalize(&self, path: &str) -> Result<String, String> {
        Ok(path.to_string())
    }
}

struct NoMux;

impl Multiplexer for NoMux {
    fn name(&self) -> &'static str {
        "none"
    }
    fn is_available(&self) -> bool {
        false
    }
    fn open_tab(&self, _cwd: &str, _title: Option<&str>) -> Result<String, OuError> {
        Err(OuError::Multiplexer("unavailable".to_string()))
    }
    fn list_tabs(&self) -> Result<Vec<TabInfo>, OuError> {
        Ok(Vec::new())
    }
    fn activate_tab(&self, _tab_id: &str) -> Result<(), OuError> {
        Ok(())
    }
    fn close_tab(&self, _tab_id: &str) -> Result<(), OuError> {
        Ok(())
    }
}

fn wt(path: &str, branch: Option<&str>, bare: bool, locked: bool, reason: Option<&str>) -> Worktree {
    Worktree {
        path: path.to_string(),
        branch: branch.map(|b| b.to_string()),
        head: "abc".to_string(),
        is_bare: bare,
        is_locked: locked,
        lock_reason: reason.map(|r| r.to_string()),
        is_prunable: false,
    }
}

fn add_args(name: &str) -> AddArgs {
    AddArgs {
        name: name.to_string(),
        source: None,
        carry: false,
        sync: false,
        file: vec![],
        lock: false,
        reason: None,
        init_submodules: false,
        submodule_reference: false,
    }
}

const LISTING: &str = "worktree /repo\nHEAD 1\nbranch refs/heads/main\n\nworktree /repo/.git/ou-worktrees/feat-login\nHEAD 2\nbranch refs/heads/feat/login\n";
const LOCKED_LISTING: &str = "worktree /repo\nHEAD 1\nbranch refs/heads/main\n\nworktree /repo/.git/ou-worktrees/feat-login\nHEAD 2\nbranch refs/heads/feat/login\nlocked wip\n";

#[test]
fn init_add_remove_end_to_end() {
    let fs = MemFs::new();
    fs.files.borrow_mut().insert("/repo/.env".to_string(), "S=1".to_string());
    let git = ScriptedGit::new(vec![(0, "/repo\n"), (0, "refs/remotes/origin/main\n")]);
    let runner = GitRunner::new(&git, "/repo".to_string());
    let msg = init::run(&runner, &fs).unwrap();
    assert_eq!(msg, "Initialized ou in /repo/.ou/settings.toml");
    assert!(fs.files.borrow()["/repo/.ou/settings.toml"].starts_with("default_source = \"main\""));
    assert_eq!(fs.files.borrow()["/repo/.ou/.gitignore"], "settings.local.toml\n");

    let config = Config { symlinks: vec![".env".to_string(), ".envrc".to_string()], ..Config::default() };
    let git = ScriptedGit::new(vec![(0, "/repo\n"), (0, "/repo/.git\n"), (0, "")]);
    let runner = GitRunner::new(&git, "/repo".to_string());
    let msg = add::run(&runner, &fs, &config, &add_args("feat/login"), None::<&NoMux>).unwrap().message;
    assert_eq!(msg, "Created worktree 'feat/login' at /repo/.git/ou-worktrees/feat-login");
    assert!(fs.dirs.borrow().contains("/repo/.git/ou-worktrees/feat-login"));
    assert_eq!(
        *fs.links.borrow(),
        vec![("/repo/.env".to_string(), "/repo/.git/ou-worktrees/feat-login/.env".to_string())]
    );
    assert_eq!(
        git.calls.borrow()[2],
        vec!["-C", "/repo", "worktree", "add", "-b", "feat/login", "/repo/.git/ou-worktrees/feat-login", "main"]
    );

    let git = ScriptedGit::new(vec![(0, LISTING), (0, ""), (0, "")]);
    let runner = GitRunner::new(&git, "/repo".to_string());
    let args = RemoveArgs { branches: vec!["feat/login".to_string()], force: 0 };
    assert_eq!(remove::run(&runner, &args).unwrap().message, "Removed: feat/login");
    assert_eq!(git.calls.borrow()[1], vec!["-C", "/repo", "worktree", "remove", "/repo/.git/ou-worktrees/feat-login"]);
}

#[test]
fn locked_worktree_needs_double_force() {
    for force in [0u8, 1u8] {
        let git = ScriptedGit::new(vec![(0, LOCKED_LISTING)]);
        let runner = GitRunner::new(&git, "/repo".to_string());
        let args = RemoveArgs { branches: vec!["feat/login".to_string()], force };
        match remove::run(&runner, &args) {
            Err(OuError::Git(m)) => assert!(m.contains("wip"), "{m}"),
            other => panic!("expected refusal, got {other:?}"),
        }
        assert_eq!(git.calls.borrow().len(), 1);
    }
    let git = ScriptedGit::new(vec![(0, LOCKED_LISTING), (0, ""), (0, ""), (0, "")]);
    let runner = GitRunner::new(&git, "/repo".to_string());
    let args = RemoveArgs { branches: vec!["feat/login".to_string()], force: 2 };
    assert_eq!(remove::run(&runner, &args).unwrap().message, "Removed: feat/login");
    let calls = git.calls.borrow();
    assert_eq!(calls[1][2..], ["worktree", "unlock", "/repo/.git/ou-worktrees/feat-login"]);
    assert_eq!(calls[2][2..], ["worktree", "remove", "/repo/.git/ou-worktrees/feat-login", "--force"]);
    assert_eq!(calls[3][2..], ["branch", "-D", "feat/login"]);
}

#[test]
fn remove_reports_partial_failure() {
    let git = ScriptedGit::new(vec![(0, LISTING), (0, ""), (0, "")]);
    let runner = GitRunner::new(&git, "/repo".to_string());
    let args = RemoveArgs { branches: vec!["feat/login".to_string(), "nonexistent".to_string()], force: 0 };
    assert_eq!(
        remove::run(&runner, &args).unwrap().message,
        "Removed: feat/login\nErrors:\n  worktree for branch 'nonexistent' not found"
    );
}

#[test]
fn remove_without_branches_fails() {
    let git = ScriptedGit::new(vec![]);
    let runner = GitRunner::new(&git, "/repo".to_string());
    let args = RemoveArgs { branches: vec![], force: 0 };
    assert_eq!(remove::run(&runner, &args), Err(OuError::Git("no branches specified".to_string())));
}

#[test]
fn add_refuses_existing_directory() {
    let fs = MemFs::new();
    fs.dirs.borrow_mut().insert("/repo/.git/ou-worktrees/feat-dup".to_string());
    let git = ScriptedGit::new(vec![(0, "/repo\n"), (0, "/repo/.git\n")]);
    let runner = GitRunner::new(&git, "/repo".to_string());
    let r = add::run(&runner, &fs, &Config::default(), &add_args("feat/dup"), None::<&NoMux>);
    assert_eq!(r, Err(OuError::WorktreeAlreadyExists("feat/dup".to_string())));
    assert_eq!(git.calls.borrow().len(), 2);
}

#[test]
fn force_policy_table() {
    let locked = wt("/w", Some("b"), false, true, Some("wip"));
    let bare = wt("/r", None, true, false, None);
    let plain = wt("/w", Some("b"), false, false, None);
    for n in [0u8, 1, 2, 7] {
        assert_eq!(removal_policy(&bare, ForceLevel::from_count(n)), Removal::RejectBare);
    }
    assert_eq!(removal_policy(&locked, ForceLevel::NoForce), Removal::RejectLocked);
    assert_eq!(removal_policy(&locked, ForceLevel::Force), Removal::RejectLocked);
    assert_eq!(removal_policy(&locked, ForceLevel::ForceForce), Removal::Proceed { unlock: true, force: true });
    assert_eq!(removal_policy(&plain, ForceLevel::NoForce), Removal::Proceed { unlock: false, force: false });
    assert_eq!(removal_policy(&plain, ForceLevel::Force), Removal::Proceed { unlock: false, force: true });
}

#[test]
fn batch_report_fails_only_when_nothing_succeeded() {
    assert_eq!(batch_report("Removed: ", &vec![], &vec![]), Ok(String::new()));
    assert_eq!(batch_report("Removed: ", &vec!["a".to_string(), "b".to_string()], &vec![]), Ok("Removed: a, b".to_string()));
    assert_eq!(
        batch_report("Removed: ", &vec![], &vec!["x".to_string(), "y".to_string()]),
        Err(OuError::Git("Errors:\n  x\n  y".to_string()))
    );
}

#[test]
fn clean_reason_labels() {
    assert_eq!(clean_reason(true, true), Some("merged + upstream gone"));
    assert_eq!(clean_reason(true, false), Some("merged"));
    assert_eq!(clean_reason(false, true), Some("upstream gone"));
    assert_eq!(clean_reason(false, false), None);
}

#[test]
fn clean_selection_by_merge_and_gone() {
    let wts = vec![
        wt("/repo", Some("main"), false, false, None),
        wt("/a", Some("feat/merged"), false, false, None),
        wt("/b", Some("feat/gone"), false, false, None),
        wt("/c", Some("feat/neither"), false, false, None),
        wt("/d", None, false, false, None),
        wt("/e", Some("feat/bare"), true, false, None),
    ];
    let branch = |n: &str, gone: bool| Branch { name: n.to_string(), upstream: None, is_head: false, gone };
    let branches = vec![branch("feat/merged", false), branch("feat/gone", true), branch("feat/neither", false)];
    let merged = vec![true, true, false, false, true, true];
    let c = clean_candidates(&wts, &branches, "main", &merged);
    assert_eq!(c.len(), 2);
    assert_eq!((c[0].branch.as_str(), c[0].reason.as_str(), c[0].path.as_str()), ("feat/merged", "merged", "/a"));
    assert_eq!((c[1].branch.as_str(), c[1].reason.as_str()), ("feat/gone", "upstream gone"));
}

#[test]
fn clean_check_lists_without_removing() {
    let listing = "worktree /repo\nbranch refs/heads/main\n\nworktree /w\nbranch refs/heads/feat/x\n";
    let git = ScriptedGit::new(vec![(0, listing), (0, "main\t\t*\t\nfeat/x\torigin/feat/x\t \t[gone]\n"), (1, "")]);
    let runner = GitRunner::new(&git, "/repo".to_string());
    let out = clean::run(&runner, &Config::default(), &CleanArgs { check: true }).unwrap().message;
    assert_eq!(out, "Would remove:\n  feat/x (upstream gone) at /w\n");
    assert_eq!(git.calls.borrow().len(), 3);
}

#[test]
fn default_branch_falls_back() {
    let git = ScriptedGit::new(vec![(1, ""), (1, ""), (0, "abc")]);
    let runner = GitRunner::new(&git, "/repo".to_string());
    assert_eq!(runner.default_branch().unwrap(), "master");
    let git = ScriptedGit::new(vec![(0, "  refs/remotes/origin/trunk \n")]);
    let runner = GitRunner::new(&git, "/repo".to_string());
    assert_eq!(runner.default_branch().unwrap(), "trunk");
}

#[test]
fn failed_command_carries_trimmed_stderr() {
    let out = CommandOutput { stdout: "x".to_string(), stderr: "  fatal: bad\n".to_string(), status: 128 };
    assert_eq!(out.into_result(), Err(OuError::Git("fatal: bad".to_string())));
    let ok = CommandOutput { stdout: "x".to_string(), stderr: String::new(), status: 0 };
    assert_eq!(ok.into_result(), Ok("x".to_string()));
}

#[test]
fn stash_push_detects_no_changes() {
    let git = ScriptedGit::new(vec![(0, "No local changes to save\n"), (0, "Saved working directory\n")]);
    let runner = GitRunner::new(&git, "/repo".to_string());
    assert!(!runner.stash_push("m").unwrap());
    assert!(runner.stash_push("m").unwrap());
}

#[test]
fn worktree_dir_name_flattens_separators() {
    assert_eq!(add::worktree_dir_name("feat/login"), "feat-login");
    assert_eq!(add::worktree_dir_name("a/b/c"), "a-b-c");
}

#[test]
fn plan_removal_steps() {
    let wts = vec![
        wt("/repo", None, true, false, None),
        wt("/a", Some("a"), false, true, None),
        wt("/b", Some("b"), false, true, Some("wip")),
        wt("/c", Some("c"), false, false, None),
    ];
    let name = |s: &str| s.to_string();
    assert_eq!(plan_removal(&wts, &name("zzz"), ForceLevel::ForceForce), RemovalStep::NotFound);
    assert_eq!(plan_removal(&wts, &name("a"), ForceLevel::Force), RemovalStep::Locked("no reason given".to_string()));
    assert_eq!(plan_removal(&wts, &name("b"), ForceLevel::NoForce), RemovalStep::Locked("wip".to_string()));
    assert_eq!(
        plan_removal(&wts, &name("b"), ForceLevel::ForceForce),
        RemovalStep::Remove { path: "/b".to_string(), unlock: true, force: true }
    );
    assert_eq!(
        plan_removal(&wts, &name("c"), ForceLevel::NoForce),
        RemovalStep::Remove { path: "/c".to_string(), unlock: false, force: false }
    );
    let bare_on_branch = vec![wt("/r", Some("main"), true, false, None)];
    assert_eq!(plan_removal(&bare_on_branch, &name("main"), ForceLevel::ForceForce), RemovalStep::Bare);
}

#[test]
fn clean_live_removes_candidates_and_skips_failures() {
    let listing = "worktree /repo\nbranch refs/heads/main\n\nworktree /w1\nbranch refs/heads/f1\n\nworktree /w2\nbranch refs/heads/f2\n";
    let git = ScriptedGit::new(vec![
        (0, listing),
        (0, "main\t\t*\t\n"),
        (0, ""),
        (0, ""),
        (1, ""),
        (0, ""),
        (0, ""),
    ]);
    let runner = GitRunner::new(&git, "/repo".to_string());
    let out = clean::run(&runner, &Config::default(), &CleanArgs { check: false }).unwrap().message;
    assert_eq!(out, "Cleaned: f2\nErrors:\n  failed to remove worktree 'f1': git error: ");
}

#[test]
fn sync_all_links_into_other_worktrees() {
    let fs = MemFs::new();
    fs.files.borrow_mut().insert("/repo/.env".to_string(), "S".to_string());
    let listing = "worktree /repo\nbranch refs/heads/main\n\nworktree /w\nbranch refs/heads/feat/a\n\nworktree /bare\nbare\n";
    let git = ScriptedGit::new(vec![(0, "/repo\n"), (0, listing)]);
    let runner = GitRunner::new(&git, "/repo".to_string());
    let config = Config { symlinks: vec![".env".to_string()], ..Config::default() };
    let args = ou::cli::SyncArgs { all: true, source: None };
    let out = ou::commands::sync::run(&runner, &fs, &config, &args, "/repo").unwrap().message;
    assert_eq!(out, "Synced: feat/a");
    assert_eq!(*fs.links.borrow(), vec![("/repo/.env".to_string(), "/w/.env".to_string())]);
}

#[test]
fn sync_unknown_source_fails() {
    let fs = MemFs::new();
    let git = ScriptedGit::new(vec![(0, "/repo\n"), (0, "worktree /repo\nbranch refs/heads/main\n")]);
    let runner = GitRunner::new(&git, "/repo".to_string());
    let args = ou::cli::SyncArgs { all: true, source: Some("nonexistent".to_string()) };
    let r = ou::commands::sync::run(&runner, &fs, &Config::default(), &args, "/repo");
    assert_eq!(r, Err(OuError::WorktreeNotFound("nonexistent".to_string())));
}

#[test]
fn init_refuses_when_initialized() {
    let fs = MemFs::new();
    fs.files.borrow_mut().insert("/repo/.ou/settings.toml".to_string(), String::new());
    let git = ScriptedGit::new(vec![(0, "/repo\n")]);
    let runner = GitRunner::new(&git, "/repo".to_string());
    assert_eq!(
        init::run(&runner, &fs),
        Err(OuError::AlreadyInitialized("/repo/.ou/settings.toml".to_string()))
    );
}

#[test]
fn settings_template_uses_detected_branch() {
    let t = init::settings_template("trunk");
    assert!(t.starts_with("default_source = \"trunk\"\n"));
    assert_eq!(t.matches("main").count(), 0);
}

#[test]
fn tab_title_from_template() {
    let mut config = Config::default();
    assert_eq!(add::tab_title(&config, "feat/x"), None);
    config.wezterm = Some(ou::config::WeztermConfig { auto_open: true, tab_title_template: Some("wt {name}!".to_string()) });
    assert_eq!(add::tab_title(&config, "feat/x"), Some("wt feat/x!".to_string()));
    config.wezterm = Some(ou::config::WeztermConfig { auto_open: true, tab_title_template: None });
    assert_eq!(add::tab_title(&config, "feat/x"), Some("feat/x".to_string()));
}

#[test]
fn table_render_pads_columns() {
    let t = FormatResult::Table(vec![
        vec!["a".to_string(), "bbb".to_string()],
        vec!["cc".to_string(), "d".to_string(), "extra".to_string()],
    ]);
    assert_eq!(t.render(), "a   bbb\ncc  d    extra\n");
    assert_eq!(FormatResult::Plain("x".to_string()).render(), "x");
    assert_eq!(FormatResult::Table(vec![]).render(), "");
}

#[test]
fn list_row_cells() {
    let mut w = wt("/p", None, true, true, None);
    w.head = "0123456789".to_string();
    let row = ou::commands::list::list_row(&w);
    assert_eq!(row, vec!["(detached)", "0123456", "/p", "[bare] [locked]"]);
}

#[test]
fn dashboard_selection_wraps() {
    let mut app = ou::tui::app::App::new();
    app.next();
    app.previous();
    assert_eq!(app.selected, 0);
    app.worktrees = vec![wt("/a", Some("a"), false, false, None), wt("/b", Some("b"), false, false, None)];
    app.next();
    assert_eq!(app.selected, 1);
    app.next();
    assert_eq!(app.selected, 0);
    app.previous();
    assert_eq!(app.selected, 1);
    assert_eq!(app.selected_worktree().unwrap().path, "/b");
}

#[test]
fn error_messages() {
    assert_eq!(
        OuError::WorktreeLocked("feat/x".to_string(), "wip".to_string()).message(),
        "worktree 'feat/x' is locked: wip (use -ff to force)"
    );
    assert_eq!(OuError::Git("boom".to_string()).message(), "git error: boom");
}

#[test]
fn selection_parsing() {
    let parse = ou::commands::open::parse_selection;
    assert_eq!(parse("2\n", 3), Ok(1));
    assert_eq!(parse(" +1 ", 3), Ok(0));
    assert_eq!(parse("3", 3), Ok(2));
    assert_eq!(parse("0", 3), Err(OuError::Git("selection out of range".to_string())));
    assert_eq!(parse("4", 3), Err(OuError::Git("selection out of range".to_string())));
    assert_eq!(parse("abc", 3), Err(OuError::Git("invalid selection".to_string())));
    assert_eq!(parse("", 3), Err(OuError::Git("invalid selection".to_string())));
    assert_eq!(parse("+", 3), Err(OuError::Git("invalid selection".to_string())));
    assert_eq!(parse("99999999999999999999999", 3), Err(OuError::Git("invalid selection".to_string())));
}

#[test]
fn open_choices_skip_bare() {
    let wts = vec![wt("/repo", None, true, false, None), wt("/a", None, false, false, None), wt("/b", Some("b"), false, false, None)];
    let c = ou::commands::open::open_choices(&wts);
    assert_eq!(c.len(), 2);
    assert_eq!((c[0].branch.as_str(), c[0].path.as_str()), ("(detached)", "/a"));
    assert_eq!((c[1].branch.as_str(), c[1].path.as_str()), ("b", "/b"));
    let mut config = Config::default();
    assert_eq!(ou::commands::open::open_title(&config, "b"), "b");
    config.wezterm = Some(ou::config::WeztermConfig { auto_open: false, tab_title_template: Some("[{name}]".to_string()) });
    assert_eq!(ou::commands::open::open_title(&config, "b"), "[b]");
}

#[test]
fn dashboard_keys() {
    let git = ScriptedGit::new(vec![]);
    let runner = GitRunner::new(&git, "/repo".to_string());
    let mut app = ou::tui::app::App::new();
    app.worktrees = vec![wt("/a", Some("a"), false, false, None), wt("/b", Some("b"), false, false, None)];
    assert_eq!(app.on_key(&runner, DashboardKey::Down), KeyOutcome::Continue);
    assert_eq!(app.selected, 1);
    assert_eq!(app.on_key(&runner, DashboardKey::Enter), KeyOutcome::Open);
    assert_eq!(app.on_key(&runner, DashboardKey::Other), KeyOutcome::Continue);
    assert_eq!(app.on_key(&runner, DashboardKey::Quit), KeyOutcome::Quit);
    assert_eq!(app.on_key(&runner, DashboardKey::Refresh), KeyOutcome::Continue);
    assert!(app.status_message.as_deref().unwrap().starts_with("Error: "));
    assert_eq!(app.worktrees.len(), 2);
}

fn decode_settings(text: &str) -> Config {
    let table: toml::Table = toml::from_str(text).unwrap();
    let string = |k: &str| table.get(k).and_then(|v| v.as_str()).map(|s| s.to_string());
    let list = |k: &str| -> Vec<String> {
        table
            .get(k)
            .and_then(|v| v.as_array())
            .map(|a| a.iter().filter_map(|x| x.as_str().map(|s| s.to_string())).collect())
            .unwrap_or_default()
    };
    Config {
        worktree_destination_base_dir: string("worktree_destination_base_dir"),
        default_source: string("default_source"),
        symlinks: list("symlinks"),
        extra_symlinks: list("extra_symlinks"),
        ..Config::default()
    }
}

#[test]
fn load_with_local_override_through_library() {
    let fs = MemFs::new();
    fs.files.borrow_mut().insert(
        "/repo/.ou/settings.toml".to_string(),
        "worktree_destination_base_dir = \"../base\"\ndefault_source = \"main\"\nsymlinks = [\".env\"]\nextra_symlinks = [\"a\"]\n".to_string(),
    );
    fs.files.borrow_mut().insert(
        "/repo/.ou/settings.local.toml".to_string(),
        "worktree_destination_base_dir = \"../local\"\nextra_symlinks = [\"b\"]\n".to_string(),
    );
    let src = Config::read_settings("/repo", &fs).unwrap();
    assert_eq!(src.base_path, "/repo/.ou/settings.toml");
    assert_eq!(src.local_path, "/repo/.ou/settings.local.toml");
    let base = src.base.as_deref().map(decode_settings);
    let local = src.local.as_deref().map(decode_settings);
    let cfg = Config::resolve(base, local);
    assert_eq!(cfg.worktree_destination_base_dir, Some("../local".to_string()));
    assert_eq!(cfg.default_source, Some("main".to_string()));
    assert_eq!(cfg.symlinks, vec![".env".to_string()]);
    assert_eq!(cfg.extra_symlinks, vec!["a".to_string(), "b".to_string()]);
}

#[test]
fn load_without_files_is_default() {
    let fs = MemFs::new();
    let src = Config::read_settings("/repo", &fs).unwrap();
    assert!(src.base.is_none() && src.local.is_none());
    let cfg = Config::resolve(None, None);
    assert_eq!(cfg.worktree_destination_base_dir, None);
    assert_eq!(cfg.default_source, None);
    assert!(cfg.symlinks.is_empty());
}

#[test]
fn add_with_carry_lock_and_submodules_runs_in_order() {
    let fs = MemFs::new();
    let git = ScriptedGit::new(vec![
        (0, "/repo\n"),
        (0, "/repo/.git\n"),
        (0, "Saved working directory and index state\n"),
        (0, ""),
        (0, ""),
        (0, ""),
        (0, ""),
    ]);
    let runner = GitRunner::new(&git, "/repo".to_string());
    let mut args = add_args("feat/c");
    args.carry = true;
    args.lock = true;
    args.reason = Some("wip".to_string());
    args.init_submodules = true;
    args.source = Some("develop".to_string());
    let msg = add::run(&runner, &fs, &Config::default(), &args, None::<&NoMux>).unwrap().message;
    assert_eq!(msg, "Created worktree 'feat/c' at /repo/.git/ou-worktrees/feat-c [locked]");
    let calls = git.calls.borrow();
    let tails: Vec<Vec<String>> = calls.iter().map(|c| c[2..].to_vec()).collect();
    assert_eq!(tails[2], vec!["stash", "push", "-m", "ou-carry: feat/c"]);
    assert_eq!(tails[3], vec!["worktree", "add", "-b", "feat/c", "/repo/.git/ou-worktrees/feat-c", "develop"]);
    assert_eq!(tails[4], vec!["worktree", "lock", "/repo/.git/ou-worktrees/feat-c", "--reason", "wip"]);
    assert_eq!(
        tails[5],
        vec!["-C", "/repo/.git/ou-worktrees/feat-c", "submodule", "update", "--init", "--recursive"]
    );
    assert_eq!(tails[6], vec!["stash", "pop"]);
}

#[test]
fn add_carry_without_changes_skips_pop() {
    let fs = MemFs::new();
    let git = ScriptedGit::new(vec![(0, "/repo\n"), (0, "/repo/.git\n"), (0, "No local changes to save\n"), (0, "")]);
    let runner = GitRunner::new(&git, "/repo".to_string());
    let mut args = add_args("x");
    args.carry = true;
    add::run(&runner, &fs, &Config::default(), &args, None::<&NoMux>).unwrap();
    assert_eq!(git.calls.borrow().len(), 4);
}

#[test]
fn command_line_prefixes_repository() {
    let git = ScriptedGit::new(vec![]);
    let runner = GitRunner::new(&git, "/r".to_string());
    let line = runner.command_line(&ou::git::command::GitCommand::BranchDelete { name: "b".to_string(), force: false });
    assert_eq!(line, vec!["-C", "/r", "branch", "-d", "b"]);
}

struct BrokenFs {
    inner: MemFs,
}

impl FileSystem for BrokenFs {
    fn symlink(&self, _source: &str, _link: &str) -> Result<(), String> {
        Err("read-only".to_string())
    }
    fn path_exists(&self, path: &str) -> bool {
        self.inner.path_exists(path)
    }
    fn is_dir(&self, path: &str) -> bool {
        self.inner.is_dir(path)
    }
    fn is_symlink(&self, path: &str) -> bool {
        self.inner.is_symlink(path)
    }
    fn read_to_string(&self, _path: &str) -> Result<String, String> {
        Err("permission denied".to_string())
    }
    fn write(&self, _path: &str, _contents: &str) -> Result<(), String> {
        Err("read-only".to_string())
    }
    fn mkdir_all(&self, _path: &str) -> Result<(), String> {
        Err("read-only".to_string())
    }
    fn remove_dir_all(&self, _path: &str) -> Result<(), String> {
        Err("read-only".to_string())
    }
    fn remove_file(&self, _path: &str) -> Result<(), String> {
        Err("read-only".to_string())
    }
    fn glob(&self, dir: &str, pattern: &str) -> Result<Vec<String>, String> {
        self.inner.glob(dir, pattern)
    }
    fn canonicalize(&self, path: &str) -> Result<String, String> {
        Ok(path.to_string())
    }
}

#[test]
fn unreadable_settings_is_config_error() {
    let fs = BrokenFs { inner: MemFs::new() };
    fs.inner.files.borrow_mut().insert("/repo/.ou/settings.toml".to_string(), String::new());
    assert_eq!(
        Config::read_settings("/repo", &fs).err(),
        Some(OuError::Config("failed to read /repo/.ou/settings.toml: permission denied".to_string()))
    );
}

#[test]
fn failing_directory_creation_is_io_error() {
    let fs = BrokenFs { inner: MemFs::new() };
    let git = ScriptedGit::new(vec![(0, "/repo\n"), (0, "/repo/.git\n")]);
    let runner = GitRunner::new(&git, "/repo".to_string());
    let r = add::run(&runner, &fs, &Config::default(), &add_args("b"), None::<&NoMux>);
    assert_eq!(r, Err(OuError::Io("read-only".to_string())));
}

#[test]
fn failing_symlink_is_symlink_error() {
    let fs = BrokenFs { inner: MemFs::new() };
    fs.inner.files.borrow_mut().insert("/s/.env".to_string(), String::new());
    let r = ou::symlink::create_symlinks(&fs, "/s", "/t", &vec![".env".to_string()]);
    match r {
        Err(OuError::Symlink(m)) => assert_eq!(m, "failed to create directory /t: read-only"),
        other => panic!("expected a symlink error, got {other:?}"),
    }
}

#[test]
fn clean_fails_when_no_removal_succeeds() {
    let listing = "worktree /repo\nbranch refs/heads/main\n\nworktree /w1\nbranch refs/heads/f1\n";
    let git = ScriptedGit::new(vec![(0, listing), (0, "main\t\t*\t\n"), (0, ""), (1, "")]);
    let runner = GitRunner::new(&git, "/repo".to_string());
    let r = clean::run(&runner, &Config::default(), &CleanArgs { check: false });
    assert_eq!(r, Err(OuError::Git("Errors:\n  failed to remove worktree 'f1': git error: ".to_string())));
}

#[test]
fn branch_deletion_failure_is_a_warning() {
    let git = ScriptedGit::new(vec![(0, LISTING), (0, ""), (1, "")]);
    let runner = GitRunner::new(&git, "/repo".to_string());
    let args = RemoveArgs { branches: vec!["feat/login".to_string()], force: 0 };
    let out = remove::run(&runner, &args).unwrap();
    assert_eq!(out.message, "Removed: feat/login");
    assert_eq!(out.warnings, vec!["worktree removed but branch deletion failed: git error: "]);
}

#[test]
fn unlock_failure_is_per_item() {
    let git = ScriptedGit::new(vec![(0, LOCKED_LISTING), (1, "")]);
    let runner = GitRunner::new(&git, "/repo".to_string());
    let args = RemoveArgs { branches: vec!["feat/login".to_string(), "main".to_string()], force: 2 };
    let r = remove::run(&runner, &args);
    assert_eq!(git.calls.borrow().len(), 3);
    assert_eq!(
        r,
        Err(OuError::Git(
            "Errors:\n  failed to remove worktree 'feat/login': git error: \n  failed to remove worktree 'main': git error: no more mock responses".to_string()
        ))
    );
}

#[test]
fn link_at_leaves_present_target_alone() {
    let fs = MemFs::new();
    assert_eq!(ou::symlink::link_at(&fs, "/s/a", "/t/a", true), Ok(false));
    assert!(fs.links.borrow().is_empty() && fs.dirs.borrow().is_empty());
    assert_eq!(ou::symlink::link_at(&fs, "/s/a", "/t/a", false), Ok(true));
    assert!(fs.dirs.borrow().contains("/t"));
}

#[test]
fn sync_report_text() {
    assert_eq!(ou::commands::sync::sync_report(&vec![]), "No worktrees to sync.");
    assert_eq!(ou::commands::sync::sync_report(&vec!["a".to_string(), "b".to_string()]), "Synced: a, b");
}

#[test]
fn add_plan_fixes_path_and_source() {
    let mut args = add_args("feat/p");
    args.carry = true;
    let config = Config { default_source: Some("develop".to_string()), ..Config::default() };
    let p = add::plan_add(&config, &args, "/repo", "/repo/.git");
    assert_eq!(p.wt_path, "/repo/.git/ou-worktrees/feat-p");
    assert_eq!(p.source, "develop");
    assert_eq!(p.stash_message.as_deref(), Some("ou-carry: feat/p"));
}

#[test]
fn clean_report_lines() {
    let c = |b: &str, r: &str, p: &str| CleanCandidate { branch: b.to_string(), reason: r.to_string(), path: p.to_string() };
    let cands = vec![c("a", "merged", "/a"), c("b", "upstream gone", "/b")];
    assert_eq!(
        clean_report(&cands, true, &vec![None, None]),
        Ok("Would remove:\n  a (merged) at /a\n  b (upstream gone) at /b\n".to_string())
    );
    assert_eq!(clean_report(&cands, false, &vec![None, None]), Ok("Cleaned: a, b".to_string()));
    assert_eq!(clean_report(&vec![], false, &vec![]), Ok("No worktrees to clean.".to_string()));
}

#[test]
fn default_branch_choice_order() {
    assert_eq!(pick_default_branch(Some("trunk".to_string()), true, true), "trunk");
    assert_eq!(pick_default_branch(None, true, true), "main");
    assert_eq!(pick_default_branch(None, false, true), "master");
    assert_eq!(pick_default_branch(None, false, false), "main");
    let out = |status| CommandOutput { stdout: String::new(), stderr: String::new(), status };
    assert_eq!(ou::git::runner::merge_status(&out(0)), ou::git::types::MergeStatus::Merged);
    assert_eq!(ou::git::runner::merge_status(&out(1)), ou::git::types::MergeStatus::NotMerged);
}

#[test]
fn add_steps_order() {
    let mut args = add_args("feat/s");
    args.carry = true;
    args.lock = true;
    args.reason = Some("r".to_string());
    let plan = add::plan_add(&Config::default(), &args, "/repo", "/repo/.git");
    assert_eq!(add_steps(&plan, "feat/s", true, false, true), vec![AddStep::AlreadyExists]);
    let wt = "/repo/.git/ou-worktrees/feat-s".to_string();
    assert_eq!(
        add_steps(&plan, "feat/s", false, true, true),
        vec![
            AddStep::StashPush("ou-carry: feat/s".to_string()),
            AddStep::MakeBaseDir("/repo/.git/ou-worktrees".to_string()),
            AddStep::CreateWorktree { path: wt.clone(), branch: "feat/s".to_string(), source: "main".to_string() },
            AddStep::LinkPatterns(wt.clone()),
            AddStep::Lock { path: wt.clone(), reason: Some("r".to_string()) },
            AddStep::StashPop,
        ]
    );
}

#[test]
fn init_plan_paths() {
    assert_eq!(init_plan("/r", true), Err(OuError::AlreadyInitialized("/r/.ou/settings.toml".to_string())));
    let p = init_plan("/r", false).unwrap();
    assert_eq!(p.settings_dir, "/r/.ou");
    assert_eq!(p.gitignore_path, "/r/.ou/.gitignore");
}

#[test]
fn read_answer_cases() {
    assert_eq!(read_answer("/p", false, Err("x".to_string())), Ok(None));
    assert_eq!(read_answer("/p", true, Ok("c".to_string())), Ok(Some("c".to_string())));
    assert_eq!(read_answer("/p", true, Err("denied".to_string())), Err(OuError::Config("failed to read /p: denied".to_string())));
}

#[test]
fn current_branch_from_output() {
    let out = |status, s: &str| CommandOutput { stdout: s.to_string(), stderr: String::new(), status };
    assert_eq!(current_branch_of(&out(0, " feat/x\n")), Some("feat/x".to_string()));
    assert_eq!(current_branch_of(&out(128, "")), None);
}

struct FailingGit;

impl GitExecutor for FailingGit {
    fn run(&self, _args: &Vec<String>) -> Result<CommandOutput, OuError> {
        Err(OuError::Io("spawn failed".to_string()))
    }
}

#[test]
fn executor_errors_pass_through() {
    let runner = GitRunner::new(FailingGit, "/repo".to_string());
    assert_eq!(runner.worktree_list().err(), Some(OuError::Io("spawn failed".to_string())));
    assert_eq!(runner.is_branch_merged("a", "b"), Err(OuError::Io("spawn failed".to_string())));
}

#[test]
fn sync_source_and_names() {
    let wts = vec![wt("/repo", Some("main"), false, false, None), wt("/w", None, false, false, None), wt("/b", None, true, false, None)];
    assert_eq!(sync_source(&wts, &None, "/repo"), Ok("/repo".to_string()));
    assert_eq!(sync_source(&wts, &Some("main".to_string()), "/x"), Ok("/repo".to_string()));
    assert_eq!(sync_source(&wts, &Some("nope".to_string()), "/x"), Err(OuError::WorktreeNotFound("nope".to_string())));
    assert_eq!(sync_names_of(&wts, "/repo", true, "/"), vec!["(detached)"]);
    assert_eq!(sync_names_of(&wts, "/repo", false, "/repo"), vec!["main"]);
}
