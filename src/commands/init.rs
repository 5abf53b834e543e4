//! Initializing the settings directory of a repository.

use vstd::prelude::*;
use vstd::string::StringExecFns;

use crate::config::{Config, DEFAULT_SETTINGS, SETTINGS_DIR, SETTINGS_FILE};
use crate::error::OuError;
use crate::fs::FileSystem;
use crate::git::executor::GitExecutor;
use crate::git::runner::GitRunner;
use crate::path::{join, join_path};
use crate::text::{chars_of, replace_all, replace_chars, string_of};

verus! {

/// The name of the ignore file written beside the settings.
pub const GITIGNORE_FILE: &'static str = ".gitignore";

/// What the ignore file holds: the local override stays out of version control.
pub const GITIGNORE_TEXT: &'static str = "settings.local.toml\n";

/// The settings file, with the detected default branch as the source.
pub open spec fn settings_text(default_branch: Seq<char>) -> Seq<char> {
    replace_all(
        DEFAULT_SETTINGS@,
        "default_source = \"main\""@,
        "default_source = \""@ + default_branch + "\""@,
    )
}

pub fn settings_template(default_branch: &str) -> (r: String)
    ensures
        r@ == settings_text(default_branch@),
{
    let pat = chars_of("default_source = \"main\"");
    proof {
        reveal_strlit("default_source = \"main\"");
    }
    assert(pat.len() > 0);
    let rep = String::from_str("default_source = \"").concat(default_branch).concat("\"");
    string_of(&replace_chars(&chars_of(Config::default_toml().as_str()), &pat, &chars_of(rep.as_str())))
}

/// The settings file of the repository at `root`.
pub open spec fn settings_path_of(root: Seq<char>) -> Seq<char> {
    join_path(join_path(root, SETTINGS_DIR@), SETTINGS_FILE@)
}

/// Where initialization writes.
#[derive(Debug, Clone, PartialEq, Eq)]
pub struct InitPaths {
    pub settings_dir: String,
    pub settings_path: String,
    pub gitignore_path: String,
}

/// Initialization of the repository at `root`: refused, naming the settings
/// file, when that file exists; else the directory and the two files.
pub fn init_plan(root: &str, settings_exists: bool) -> (r: Result<InitPaths, OuError>)
    ensures
        settings_exists ==> (r matches Err(OuError::AlreadyInitialized(p)) && p@ == settings_path_of(root@)),
        !settings_exists ==> (r matches Ok(ip) && ip.settings_dir@ == join_path(root@, SETTINGS_DIR@)
            && ip.settings_path@ == settings_path_of(root@)
            && ip.gitignore_path@ == join_path(join_path(root@, SETTINGS_DIR@), GITIGNORE_FILE@)),
{
    let settings_dir = join(root, SETTINGS_DIR);
    let settings_path = join(settings_dir.as_str(), SETTINGS_FILE);
    if settings_exists {
        return Err(OuError::AlreadyInitialized(settings_path));
    }
    let gitignore_path = join(settings_dir.as_str(), GITIGNORE_FILE);
    Ok(InitPaths { settings_dir, settings_path, gitignore_path })
}

/// Writes the ignore file at `path` unless it is present; tells whether it
/// wrote.
pub fn write_gitignore<F: FileSystem>(fs: &F, path: &str, present: bool) -> (r: Result<bool, OuError>)
    ensures
        present ==> r == Ok::<bool, OuError>(false),
        !present ==> (r matches Ok(b) ==> b),
        r matches Err(e) ==> e is Io,
{
    if present {
        return Ok(false);
    }
    match fs.write(path, GITIGNORE_TEXT) {
        Ok(()) => Ok(true),
        Err(e) => Err(OuError::Io(e)),
    }
}

/// Writes the ignore file into `settings_dir` unless one is there.
pub fn create_gitignore<F: FileSystem>(fs: &F, settings_dir: &str) -> (r: Result<(), OuError>)
    ensures
        r matches Err(e) ==> e is Io,
{
    let path = join(settings_dir, GITIGNORE_FILE);
    let present = fs.path_exists(path.as_str());
    write_gitignore(fs, path.as_str(), present)?;
    Ok(())
}

/// Creates the settings directory with its settings file (the template with
/// the detected default branch) and its ignore file, as `init_plan` decides
/// for the settings file's presence that the filesystem answers.
pub fn run<E: GitExecutor, F: FileSystem>(git: &GitRunner<E>, fs: &F) -> (r: Result<String, OuError>)
    ensures
        r matches Ok(m) ==> exists|root: Seq<char>| m@ == "Initialized ou in "@ + #[trigger] settings_path_of(root),
{
    let repo_root = git.get_toplevel()?;
    let settings_path = join(join(repo_root.as_str(), SETTINGS_DIR).as_str(), SETTINGS_FILE);
    let exists = fs.path_exists(settings_path.as_str());
    let paths = init_plan(repo_root.as_str(), exists)?;
    let default_branch = git.default_branch()?;
    let template = settings_template(default_branch.as_str());
    if let Err(e) = fs.mkdir_all(paths.settings_dir.as_str()) {
        return Err(OuError::Io(e));
    }
    if let Err(e) = fs.write(paths.settings_path.as_str(), template.as_str()) {
        return Err(OuError::Io(e));
    }
    let present = fs.path_exists(paths.gitignore_path.as_str());
    write_gitignore(fs, paths.gitignore_path.as_str(), present)?;
    Ok(String::from_str("Initialized ou in ").concat(paths.settings_path.as_str()))
}

} // verus!
