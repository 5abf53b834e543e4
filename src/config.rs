//! Repository settings: the base file and the local override, merged.

use vstd::prelude::*;

use vstd::string::StringExecFns;

use crate::error::OuError;
use crate::fs::FileSystem;
use crate::git::types::opt_str;
use crate::path::{join, join_path};
use crate::text::string_views;

verus! {

pub const SETTINGS_DIR: &'static str = ".ou";
pub const SETTINGS_FILE: &'static str = "settings.toml";
pub const SETTINGS_LOCAL_FILE: &'static str = "settings.local.toml";

/// The subdirectory of the repository's metadata directory that holds the
/// worktrees when no destination is configured.
pub const DEFAULT_WORKTREE_DIR: &'static str = "ou-worktrees";

/// The source branch when none is configured.
pub const FALLBACK_SOURCE: &'static str = "main";

/// The settings file that initialization writes.
pub const DEFAULT_SETTINGS: &'static str = "default_source = \"main\"
symlinks = [\".env\", \".envrc\", \".tool-versions\"]
extra_symlinks = []
init_submodules = false
submodule_reference = false

[wezterm]
auto_open = false
tab_title_template = \"{name}\"
";

/// Effective settings of one repository.
#[derive(Debug, Clone)]
pub struct Config {
    pub worktree_destination_base_dir: Option<String>,
    pub default_source: Option<String>,
    pub symlinks: Vec<String>,
    pub extra_symlinks: Vec<String>,
    pub init_submodules: bool,
    pub submodule_reference: bool,
    pub wezterm: Option<WeztermConfig>,
}

/// Terminal integration settings.
#[derive(Debug, Clone)]
pub struct WeztermConfig {
    pub auto_open: bool,
    pub tab_title_template: Option<String>,
}

pub struct WeztermView {
    pub auto_open: bool,
    pub tab_title_template: Option<Seq<char>>,
}

pub struct ConfigView {
    pub base_dir: Option<Seq<char>>,
    pub default_source: Option<Seq<char>>,
    pub symlinks: Seq<Seq<char>>,
    pub extra_symlinks: Seq<Seq<char>>,
    pub init_submodules: bool,
    pub submodule_reference: bool,
    pub wezterm: Option<WeztermView>,
}

impl View for WeztermConfig {
    type V = WeztermView;

    open spec fn view(&self) -> WeztermView {
        WeztermView {
            auto_open: self.auto_open,
            tab_title_template: opt_str(self.tab_title_template),
        }
    }
}

pub open spec fn opt_wezterm(o: Option<WeztermConfig>) -> Option<WeztermView> {
    match o {
        Some(w) => Some(w@),
        None => None,
    }
}

impl View for Config {
    type V = ConfigView;

    open spec fn view(&self) -> ConfigView {
        ConfigView {
            base_dir: opt_str(self.worktree_destination_base_dir),
            default_source: opt_str(self.default_source),
            symlinks: string_views(self.symlinks@),
            extra_symlinks: string_views(self.extra_symlinks@),
            init_submodules: self.init_submodules,
            submodule_reference: self.submodule_reference,
            wezterm: opt_wezterm(self.wezterm),
        }
    }
}

/// The settings with nothing configured.
pub open spec fn default_view() -> ConfigView {
    ConfigView {
        base_dir: None,
        default_source: None,
        symlinks: seq![],
        extra_symlinks: seq![],
        init_submodules: false,
        submodule_reference: false,
        wezterm: None,
    }
}

/// `items` appended to `acc` in order, each one only if it is not there yet.
pub open spec fn append_new(acc: Seq<Seq<char>>, items: Seq<Seq<char>>) -> Seq<Seq<char>>
    decreases items.len(),
{
    if items.len() == 0 {
        acc
    } else {
        let next = if acc.contains(items[0]) {
            acc
        } else {
            acc.push(items[0])
        };
        append_new(next, items.drop_first())
    }
}

/// Each entry at its first occurrence only, in order.
pub open spec fn dedup(s: Seq<Seq<char>>) -> Seq<Seq<char>> {
    append_new(seq![], s)
}

/// The override laid over the base: a present value replaces, a non-empty
/// primary list replaces, extra entries are added without repeats, flags
/// only turn on, and a present terminal block replaces the whole block.
pub open spec fn merge_views(b: ConfigView, l: ConfigView) -> ConfigView {
    ConfigView {
        base_dir: if l.base_dir is Some {
            l.base_dir
        } else {
            b.base_dir
        },
        default_source: if l.default_source is Some {
            l.default_source
        } else {
            b.default_source
        },
        symlinks: if l.symlinks.len() > 0 {
            l.symlinks
        } else {
            b.symlinks
        },
        extra_symlinks: append_new(b.extra_symlinks, l.extra_symlinks),
        init_submodules: b.init_submodules || l.init_submodules,
        submodule_reference: b.submodule_reference || l.submodule_reference,
        wezterm: if l.wezterm is Some {
            l.wezterm
        } else {
            b.wezterm
        },
    }
}

/// Where worktrees go: the configured directory, resolved against the
/// repository root, or else a directory inside the repository's metadata.
pub open spec fn base_dir_of(c: ConfigView, repo_root: Seq<char>, common_dir: Seq<char>) -> Seq<char> {
    match c.base_dir {
        Some(d) => join_path(repo_root, d),
        None => join_path(common_dir, DEFAULT_WORKTREE_DIR@),
    }
}

pub open spec fn source_branch_of(c: ConfigView) -> Seq<char> {
    match c.default_source {
        Some(s) => s,
        None => FALLBACK_SOURCE@,
    }
}

fn contains_str(v: &Vec<String>, s: &String) -> (r: bool)
    ensures
        r == string_views(v@).contains(s@),
{
    let mut i: usize = 0;
    while i < v.len()
        invariant
            i <= v.len(),
            forall|j: int| 0 <= j < i ==> v@[j]@ != s@,
        decreases v.len() - i,
    {
        if v[i] == *s {
            assert(string_views(v@)[i as int] == s@);
            return true;
        }
        i += 1;
    }
    assert forall|j: int| 0 <= j < string_views(v@).len() implies string_views(v@)[j] != s@ by {
        assert(string_views(v@)[j] == v@[j]@);
    }
    false
}

/// Appends each of `items` that `acc` does not hold yet.
fn add_new(acc: &mut Vec<String>, items: &Vec<String>)
    ensures
        string_views(final(acc)@) == append_new(string_views(old(acc)@), string_views(items@)),
{
    let ghost all = string_views(items@);
    let mut i: usize = 0;
    assert(all.subrange(0, all.len() as int) == all);
    while i < items.len()
        invariant
            all == string_views(items@),
            i <= items.len(),
            append_new(string_views(acc@), all.subrange(i as int, all.len() as int))
                == append_new(string_views(old(acc)@), all),
        decreases items.len() - i,
    {
        let ghost before = string_views(acc@);
        let ghost rest = all.subrange(i as int, all.len() as int);
        assert(rest.drop_first() == all.subrange(i + 1, all.len() as int));
        assert(rest[0] == items@[i as int]@);
        if !contains_str(acc, &items[i]) {
            let s = items[i].clone();
            acc.push(s);
            assert(string_views(acc@) == before.push(rest[0]));
        }
        i += 1;
    }
    assert(all.subrange(all.len() as int, all.len() as int) == Seq::<Seq<char>>::empty());
}

impl Default for WeztermConfig {
    fn default() -> (r: WeztermConfig)
        ensures
            r@ == (WeztermView { auto_open: false, tab_title_template: None }),
    {
        WeztermConfig { auto_open: false, tab_title_template: None }
    }
}

impl Default for Config {
    fn default() -> (r: Config)
        ensures
            r@ == default_view(),
    {
        let r = Config {
            worktree_destination_base_dir: None,
            default_source: None,
            symlinks: Vec::new(),
            extra_symlinks: Vec::new(),
            init_submodules: false,
            submodule_reference: false,
            wezterm: None,
        };
        assert(string_views(r.symlinks@) == Seq::<Seq<char>>::empty());
        assert(string_views(r.extra_symlinks@) == Seq::<Seq<char>>::empty());
        r
    }
}

impl Config {
    /// Lays the local override over these base settings.
    pub fn merge(self, local: Config) -> (r: Config)
        ensures
            r@ == merge_views(self@, local@),
    {
        let mut base = self;
        if local.worktree_destination_base_dir.is_some() {
            base.worktree_destination_base_dir = local.worktree_destination_base_dir;
        }
        if local.default_source.is_some() {
            base.default_source = local.default_source;
        }
        if local.symlinks.len() > 0 {
            base.symlinks = local.symlinks;
        }
        add_new(&mut base.extra_symlinks, &local.extra_symlinks);
        if local.init_submodules {
            base.init_submodules = true;
        }
        if local.submodule_reference {
            base.submodule_reference = true;
        }
        if local.wezterm.is_some() {
            base.wezterm = local.wezterm;
        }
        base
    }

    /// The primary patterns, then each extra pattern not already listed.
    pub fn all_symlinks(&self) -> (r: Vec<String>)
        ensures
            string_views(r@) == append_new(string_views(self.symlinks@), string_views(self.extra_symlinks@)),
    {
        let mut all: Vec<String> = Vec::new();
        let mut i: usize = 0;
        while i < self.symlinks.len()
            invariant
                i <= self.symlinks.len(),
                string_views(all@) == string_views(self.symlinks@).subrange(0, i as int),
            decreases self.symlinks.len() - i,
        {
            let ghost before = string_views(all@);
            all.push(self.symlinks[i].clone());
            assert(string_views(all@) == before.push(self.symlinks@[i as int]@));
            assert(string_views(self.symlinks@).subrange(0, i + 1)
                == string_views(self.symlinks@).subrange(0, i as int).push(self.symlinks@[i as int]@));
            i += 1;
        }
        assert(string_views(self.symlinks@).subrange(0, i as int) == string_views(self.symlinks@));
        add_new(&mut all, &self.extra_symlinks);
        all
    }

    /// The directory under which new worktrees are created.
    pub fn worktree_base_dir(&self, repo_root: &str, git_common_dir: &str) -> (r: String)
        ensures
            r@ == base_dir_of(self@, repo_root@, git_common_dir@),
    {
        match &self.worktree_destination_base_dir {
            Some(dir) => join(repo_root, dir.as_str()),
            None => join(git_common_dir, DEFAULT_WORKTREE_DIR),
        }
    }

    /// The branch that new worktrees start from unless told otherwise.
    pub fn default_source_branch(&self) -> (r: &str)
        ensures
            r@ == source_branch_of(self@),
    {
        match &self.default_source {
            Some(s) => s.as_str(),
            None => FALLBACK_SOURCE,
        }
    }

    /// The settings file that initialization writes.
    pub fn default_toml() -> (r: String)
        ensures
            r@ == DEFAULT_SETTINGS@,
    {
        String::from_str(DEFAULT_SETTINGS)
    }
}

/// The settings that result from the files found: an absent base file is
/// the empty configuration, and the local override, when present, is
/// merged over the base.
pub open spec fn resolved(base: Option<ConfigView>, local: Option<ConfigView>) -> ConfigView {
    let b = match base {
        Some(c) => c,
        None => default_view(),
    };
    match local {
        Some(l) => merge_views(b, l),
        None => b,
    }
}

pub open spec fn opt_config(o: Option<Config>) -> Option<ConfigView> {
    match o {
        Some(c) => Some(c@),
        None => None,
    }
}

/// The contents of the two settings files, where they exist.
pub struct SettingsSources {
    pub base_path: String,
    pub base: Option<String>,
    pub local_path: String,
    pub local: Option<String>,
}

impl Config {
    /// The paths of the base settings file and of the local override.
    pub fn settings_paths(repo_root: &str) -> (r: (String, String))
        ensures
            r.0@ == join_path(join_path(repo_root@, SETTINGS_DIR@), SETTINGS_FILE@),
            r.1@ == join_path(join_path(repo_root@, SETTINGS_DIR@), SETTINGS_LOCAL_FILE@),
    {
        let dir = join(repo_root, SETTINGS_DIR);
        (join(dir.as_str(), SETTINGS_FILE), join(dir.as_str(), SETTINGS_LOCAL_FILE))
    }

    /// Reads the settings files that exist. A missing file is no error; a
    /// file that exists but cannot be read is a configuration error that
    /// names it.
    pub fn read_settings<F: FileSystem>(repo_root: &str, fs: &F) -> (r: Result<SettingsSources, OuError>)
        ensures
            r matches Err(e) ==> e is Config,
            r matches Ok(src) ==> src.base_path@ == join_path(join_path(repo_root@, SETTINGS_DIR@), SETTINGS_FILE@)
                && src.local_path@ == join_path(join_path(repo_root@, SETTINGS_DIR@), SETTINGS_LOCAL_FILE@),
    {
        let (base_path, local_path) = Config::settings_paths(repo_root);
        let base = read_optional(fs, base_path.as_str())?;
        let local = read_optional(fs, local_path.as_str())?;
        Ok(SettingsSources { base_path, base, local_path, local })
    }

    /// The effective settings from the decoded files.
    pub fn resolve(base: Option<Config>, local: Option<Config>) -> (r: Config)
        ensures
            r@ == resolved(opt_config(base), opt_config(local)),
    {
        let b = match base {
            Some(c) => c,
            None => Config::default(),
        };
        match local {
            Some(l) => b.merge(l),
            None => b,
        }
    }
}

/// The contents of a settings file as the filesystem answered: a file that
/// is not present is none; a file that could not be read is a
/// configuration error that names it and gives the reason.
pub fn read_answer(path: &str, present: bool, answer: Result<String, String>) -> (r: Result<Option<String>, OuError>)
    ensures
        !present ==> r == Ok::<Option<String>, OuError>(None),
        present ==> match answer {
            Ok(c) => r == Ok::<Option<String>, OuError>(Some(c)),
            Err(e) => (r matches Err(OuError::Config(m)) && m@ == "failed to read "@ + path@ + ": "@ + e@),
        },
{
    if !present {
        return Ok(None);
    }
    match answer {
        Ok(content) => Ok(Some(content)),
        Err(e) => Err(OuError::Config(String::from_str("failed to read ").concat(path).concat(": ").concat(e.as_str()))),
    }
}

fn read_optional<F: FileSystem>(fs: &F, path: &str) -> (r: Result<Option<String>, OuError>)
    ensures
        r matches Err(e) ==> e is Config,
{
    if !fs.path_exists(path) {
        return read_answer(path, false, Ok(String::new()));
    }
    read_answer(path, true, fs.read_to_string(path))
}

proof fn lemma_append_new_facts(acc: Seq<Seq<char>>, items: Seq<Seq<char>>)
    ensures
        acc.no_duplicates() ==> append_new(acc, items).no_duplicates(),
        forall|x: Seq<char>| #[trigger] append_new(acc, items).contains(x)
            <==> (acc.contains(x) || items.contains(x)),
        append_new(acc, items).len() >= acc.len(),
        append_new(acc, items).subrange(0, acc.len() as int) == acc,
    decreases items.len(),
{
    if items.len() == 0 {
        assert(acc.subrange(0, acc.len() as int) == acc);
    } else {
        let next = if acc.contains(items[0]) {
            acc
        } else {
            acc.push(items[0])
        };
        let rest = items.drop_first();
        lemma_append_new_facts(next, rest);
        let r = append_new(acc, items);
        assert(r == append_new(next, rest));
        if !acc.contains(items[0]) && acc.no_duplicates() {
            assert(next.no_duplicates()) by {
                assert forall|i: int, j: int| 0 <= i < j < next.len() implies next[i] != next[j] by {
                    if j == acc.len() {
                        assert(next[i] == acc[i]);
                    } else {
                        assert(next[i] == acc[i] && next[j] == acc[j]);
                    }
                }
            }
        }
        assert forall|x: Seq<char>| #[trigger] r.contains(x) <==> (acc.contains(x) || items.contains(x)) by {
            assert(next.contains(x) <==> (acc.contains(x) || x == items[0])) by {
                if !acc.contains(items[0]) {
                    if next.contains(x) {
                        let k = choose|k: int| 0 <= k < next.len() && next[k] == x;
                        if k < acc.len() {
                            assert(acc[k] == x);
                        }
                    }
                    if acc.contains(x) {
                        let k = choose|k: int| 0 <= k < acc.len() && acc[k] == x;
                        assert(next[k] == x);
                    }
                    assert(next[acc.len() as int] == items[0]);
                }
            }
            assert(items.contains(x) <==> (x == items[0] || rest.contains(x))) by {
                if items.contains(x) {
                    let k = choose|k: int| 0 <= k < items.len() && items[k] == x;
                    if k > 0 {
                        assert(rest[k - 1] == x);
                    }
                }
                if rest.contains(x) {
                    let k = choose|k: int| 0 <= k < rest.len() && rest[k] == x;
                    assert(items[k + 1] == x);
                }
                assert(items[0] == items[0]);
            }
        }
        assert(r.subrange(0, acc.len() as int) == acc) by {
            assert(r.subrange(0, next.len() as int) == next);
            assert(r.subrange(0, acc.len() as int) == next.subrange(0, acc.len() as int));
            assert(next.subrange(0, acc.len() as int) == acc);
        }
    }
}

proof fn lemma_append_new_concat(acc: Seq<Seq<char>>, a: Seq<Seq<char>>, b: Seq<Seq<char>>)
    ensures
        append_new(acc, a + b) == append_new(append_new(acc, a), b),
    decreases a.len(),
{
    if a.len() == 0 {
        assert(a + b == b);
    } else {
        assert((a + b).drop_first() == a.drop_first() + b);
        assert((a + b)[0] == a[0]);
        let next = if acc.contains(a[0]) {
            acc
        } else {
            acc.push(a[0])
        };
        lemma_append_new_concat(next, a.drop_first(), b);
    }
}

proof fn lemma_append_new_fresh(acc: Seq<Seq<char>>, items: Seq<Seq<char>>)
    requires
        (acc + items).no_duplicates(),
    ensures
        append_new(acc, items) == acc + items,
    decreases items.len(),
{
    if items.len() == 0 {
        assert(acc + items == acc);
    } else {
        let whole = acc + items;
        assert(!acc.contains(items[0])) by {
            if acc.contains(items[0]) {
                let k = choose|k: int| 0 <= k < acc.len() && acc[k] == items[0];
                assert(whole[k] == whole[acc.len() as int]);
            }
        }
        assert(acc.push(items[0]) + items.drop_first() == whole);
        lemma_append_new_fresh(acc.push(items[0]), items.drop_first());
    }
}

/// Merging an override that sets nothing gives back the base settings.
pub proof fn lemma_merge_default_is_identity(base: ConfigView)
    ensures
        merge_views(base, default_view()) == base,
{
}

/// The submodule flags only turn on under a merge: a flag that is on in the
/// base or in the override is on in the result, whatever the other says.
pub proof fn lemma_merge_flags_monotonic(base: ConfigView, local: ConfigView)
    ensures
        base.init_submodules ==> merge_views(base, local).init_submodules,
        local.init_submodules ==> merge_views(base, local).init_submodules,
        base.submodule_reference ==> merge_views(base, local).submodule_reference,
        local.submodule_reference ==> merge_views(base, local).submodule_reference,
        merge_views(base, local).init_submodules ==> forall|next: ConfigView|
            #[trigger] merge_views(merge_views(base, local), next).init_submodules,
        merge_views(base, local).submodule_reference ==> forall|next: ConfigView|
            #[trigger] merge_views(merge_views(base, local), next).submodule_reference,
{
}

/// The effective pattern list keeps the primary list as it is, then adds the
/// extra entries in first-seen order: each pattern of either list appears,
/// none twice, and the result is the first occurrences of the two lists
/// taken one after the other.
pub proof fn lemma_all_symlinks_dedup(primary: Seq<Seq<char>>, extra: Seq<Seq<char>>)
    requires
        primary.no_duplicates(),
    ensures
        append_new(primary, extra).no_duplicates(),
        forall|x: Seq<char>| #[trigger] append_new(primary, extra).contains(x)
            <==> (primary.contains(x) || extra.contains(x)),
        append_new(primary, extra).subrange(0, primary.len() as int) == primary,
        append_new(primary, extra) == dedup(primary + extra),
{
    lemma_append_new_facts(primary, extra);
    lemma_append_new_concat(seq![], primary, extra);
    assert(Seq::<Seq<char>>::empty() + primary == primary);
    lemma_append_new_fresh(seq![], primary);
}

} // verus!
