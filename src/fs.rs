//! The interface to the filesystem, and the choice of which paths a glob selects.

use vstd::prelude::*;
use vstd::string::StrSliceExecFns;

use crate::text::string_views;
use crate::error::OuError;

verus! {

/// The filesystem operations the commands need. Paths are `/`-separated
/// text; errors carry the system's message.
pub trait FileSystem {
    fn symlink(&self, source: &str, link: &str) -> Result<(), String>;

    fn path_exists(&self, path: &str) -> bool;

    fn is_dir(&self, path: &str) -> bool;

    fn is_symlink(&self, path: &str) -> bool;

    fn read_to_string(&self, path: &str) -> Result<String, String>;

    fn write(&self, path: &str, contents: &str) -> Result<(), String>;

    fn mkdir_all(&self, path: &str) -> Result<(), String>;

    fn remove_dir_all(&self, path: &str) -> Result<(), String>;

    fn remove_file(&self, path: &str) -> Result<(), String>;

    /// The paths under `dir` that match `pattern`, each with `dir` in front.
    fn glob(&self, dir: &str, pattern: &str) -> Result<Vec<String>, String>;

    fn canonicalize(&self, path: &str) -> Result<String, String>;
}

/// Whether the glob `pattern` accepts the relative `path`; none when the
/// pattern does not compile.
pub uninterp spec fn glob_verdict(pattern: Seq<char>, path: Seq<char>) -> Option<bool>;

/// The longest pattern handed to globset. Its translation of nested
/// alternates recurses once per level, so the length bounds that depth (and
/// the size of its literal matchers) well within what a thread's stack holds.
pub const MAX_PATTERN_LEN: usize = 1024;

/// Relies on globset: `Glob::new` parses the pattern, and
/// `GlobSetBuilder::build` compiles it, returning as errors the patterns it
/// cannot compile (too deeply nested, too large); the set's `is_match`
/// decides the path. The result depends on the pattern and the path alone.
#[verifier::external_body]
fn glob_match(pattern: &str, path: &str) -> (r: Option<bool>)
    requires
        pattern@.len() <= MAX_PATTERN_LEN,
    ensures
        r == glob_verdict(pattern@, path@),
{
    let mut builder = globset::GlobSetBuilder::new();
    match globset::Glob::new(pattern) {
        Ok(g) => {
            builder.add(g);
        },
        Err(_) => return None,
    }
    match builder.build() {
        Ok(set) => Some(set.is_match(path)),
        Err(_) => None,
    }
}

/// The candidates that the pattern accepts, in order.
pub open spec fn glob_selected(pattern: Seq<char>, cands: Seq<Seq<char>>) -> Seq<Seq<char>>
    decreases cands.len(),
{
    if cands.len() == 0 {
        seq![]
    } else {
        let r = glob_selected(pattern, cands.drop_last());
        if glob_verdict(pattern, cands.last()) == Some(true) {
            r.push(cands.last())
        } else {
            r
        }
    }
}

pub open spec fn glob_decided(pattern: Seq<char>, cands: Seq<Seq<char>>) -> bool {
    forall|i: int| 0 <= i < cands.len() ==> (#[trigger] glob_verdict(pattern, cands[i])) is Some
}

/// Whether globset takes the pattern: not too long, and it compiles.
pub open spec fn glob_usable(pattern: Seq<char>) -> bool {
    pattern.len() <= MAX_PATTERN_LEN && glob_verdict(pattern, seq![]) is Some
}

/// Keeps the relative paths that `pattern` matches. Fails when the pattern
/// does not compile or is longer than `MAX_PATTERN_LEN`, whether or not there
/// are candidates.
pub fn select_matches(pattern: &str, candidates: &Vec<String>) -> (r: Result<Vec<String>, OuError>)
    ensures
        r is Ok <==> (glob_usable(pattern@) && glob_decided(pattern@, string_views(candidates@))),
        r matches Ok(v) ==> string_views(v@) == glob_selected(pattern@, string_views(candidates@)),
{
    if pattern.unicode_len() > MAX_PATTERN_LEN {
        return Err(OuError::Symlink(String::from_str("glob pattern too long")));
    }
    let empty = String::new();
    if glob_match(pattern, empty.as_str()).is_none() {
        return Err(OuError::Symlink(String::from_str("invalid glob pattern")));
    }
    let ghost all = string_views(candidates@);
    let mut out: Vec<String> = Vec::new();
    let mut i: usize = 0;
    assert(string_views(out@) == Seq::<Seq<char>>::empty());
    assert(all.subrange(0, 0) == Seq::<Seq<char>>::empty());
    while i < candidates.len()
        invariant
            all == string_views(candidates@),
            glob_usable(pattern@),
            i <= candidates.len(),
            glob_decided(pattern@, all.subrange(0, i as int)),
            string_views(out@) == glob_selected(pattern@, all.subrange(0, i as int)),
        decreases candidates.len() - i,
    {
        let ghost before = string_views(out@);
        let ghost pre = all.subrange(0, i as int);
        let ghost next = all.subrange(0, i + 1);
        assert(next.drop_last() == pre);
        assert(next.last() == candidates@[i as int]@);
        match glob_match(pattern, candidates[i].as_str()) {
            None => {
                assert(!glob_decided(pattern@, all)) by {
                    assert(all[i as int] == candidates@[i as int]@);
                }
                return Err(OuError::Symlink(String::from_str("invalid glob pattern")));
            },
            Some(true) => {
                out.push(candidates[i].clone());
                assert(string_views(out@) == before.push(candidates@[i as int]@));
            },
            Some(false) => {},
        }
        assert forall|j: int| 0 <= j < next.len() implies (#[trigger] glob_verdict(pattern@, next[j])) is Some by {
            if j < i {
                assert(next[j] == pre[j]);
            }
        }
        i += 1;
    }
    assert(all.subrange(0, i as int) == all);
    Ok(out)
}

} // verus!
