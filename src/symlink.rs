//! Reconciles a set of patterns into symlinks from a source directory into a
//! target directory.

use vstd::prelude::*;

use crate::error::OuError;
use crate::fs::FileSystem;
use crate::path::{join, join_path, relative_to, strip_base};
use vstd::string::StringExecFns;

use crate::text::{chars_of, has_prefix, lemma_prefix_of_concat, slice_of, string_of, string_views};

verus! {

/// One link to make: `target` is to point at `source`; `relative` is the
/// path under both directories.
#[derive(Debug, Clone)]
pub struct LinkPlan {
    pub source: String,
    pub target: String,
    pub relative: String,
}

pub struct LinkView {
    pub source: Seq<char>,
    pub target: Seq<char>,
    pub relative: Seq<char>,
}

impl View for LinkPlan {
    type V = LinkView;

    open spec fn view(&self) -> LinkView {
        LinkView { source: self.source@, target: self.target@, relative: self.relative@ }
    }
}

pub open spec fn link_views(v: Seq<LinkPlan>) -> Seq<LinkView> {
    v.map_values(|l: LinkPlan| l@)
}

pub open spec fn link_for(source_dir: Seq<char>, target_dir: Seq<char>, m: Seq<char>) -> LinkView {
    let rel = relative_to(m, source_dir).unwrap();
    LinkView { source: m, target: join_path(target_dir, rel), relative: rel }
}

/// The links one pattern asks for, given the paths its glob matched under
/// the source directory. With no match, the pattern is taken as a literal
/// path, linked when it exists.
pub open spec fn pattern_links(
    source_dir: Seq<char>,
    target_dir: Seq<char>,
    pattern: Seq<char>,
    matches: Seq<Seq<char>>,
    literal_exists: bool,
) -> Seq<LinkView> {
    if matches.len() == 0 {
        if literal_exists {
            seq![
                LinkView {
                    source: join_path(source_dir, pattern),
                    target: join_path(target_dir, pattern),
                    relative: pattern,
                },
            ]
        } else {
            seq![]
        }
    } else {
        Seq::new(matches.len(), |i: int| link_for(source_dir, target_dir, matches[i]))
    }
}

pub open spec fn all_under(source_dir: Seq<char>, matches: Seq<Seq<char>>) -> bool {
    forall|i: int| 0 <= i < matches.len() ==> (#[trigger] relative_to(matches[i], source_dir)) is Some
}

/// The links for one pattern; fails when a match does not lie under the
/// source directory.
pub fn plan_pattern(
    source_dir: &str,
    target_dir: &str,
    pattern: &str,
    matches: &Vec<String>,
    literal_exists: bool,
) -> (r: Result<Vec<LinkPlan>, OuError>)
    ensures
        r is Ok <==> all_under(source_dir@, string_views(matches@)),
        r matches Err(e) ==> e is Symlink,
        r matches Ok(v) ==> link_views(v@) == pattern_links(
            source_dir@,
            target_dir@,
            pattern@,
            string_views(matches@),
            literal_exists,
        ),
{
    let ghost ms = string_views(matches@);
    let mut out: Vec<LinkPlan> = Vec::new();
    if matches.len() == 0 {
        if literal_exists {
            let l = LinkPlan {
                source: join(source_dir, pattern),
                target: join(target_dir, pattern),
                relative: String::from_str(pattern),
            };
            out.push(l);
            assert(link_views(out@) == pattern_links(source_dir@, target_dir@, pattern@, ms, literal_exists));
        } else {
            assert(link_views(out@) == pattern_links(source_dir@, target_dir@, pattern@, ms, literal_exists));
        }
        return Ok(out);
    }
    let mut i: usize = 0;
    while i < matches.len()
        invariant
            ms == string_views(matches@),
            i <= matches.len(),
            out@.len() == i,
            forall|j: int| 0 <= j < i ==> (#[trigger] relative_to(ms[j], source_dir@)) is Some,
            forall|j: int| 0 <= j < i ==> #[trigger] out@[j]@ == link_for(source_dir@, target_dir@, ms[j]),
        decreases matches.len() - i,
    {
        assert(ms[i as int] == matches@[i as int]@);
        match strip_base(matches[i].as_str(), source_dir) {
            None => {
                return Err(OuError::Symlink(String::from_str("path error: match outside the source directory")));
            },
            Some(rel) => {
                let target = join(target_dir, rel.as_str());
                let l = LinkPlan { source: matches[i].clone(), target, relative: rel };
                out.push(l);
            },
        }
        i += 1;
    }
    assert(link_views(out@) == pattern_links(source_dir@, target_dir@, pattern@, ms, literal_exists));
    Ok(out)
}

/// Whether link `i` is to be made: its target is not present and no earlier
/// link has the same target.
pub open spec fn is_new_link(targets: Seq<Seq<char>>, present: Seq<bool>, i: int) -> bool {
    !present[i] && forall|j: int| 0 <= j < i ==> targets[j] != targets[i]
}

pub open spec fn link_targets(links: Seq<LinkView>) -> Seq<Seq<char>> {
    links.map_values(|l: LinkView| l.target)
}

/// Picks the links to make, given for each whether its target is already
/// present (as an entry or a symlink).
pub fn new_links(links: &Vec<LinkPlan>, present: &Vec<bool>) -> (r: Vec<bool>)
    requires
        present.len() == links.len(),
    ensures
        r.len() == links.len(),
        forall|i: int| 0 <= i < r.len() ==> r[i] == is_new_link(
            link_targets(link_views(links@)),
            present@,
            i,
        ),
{
    let ghost ts = link_targets(link_views(links@));
    let mut out: Vec<bool> = Vec::new();
    let mut i: usize = 0;
    while i < links.len()
        invariant
            ts == link_targets(link_views(links@)),
            present.len() == links.len(),
            i <= links.len(),
            out.len() == i,
            forall|k: int| 0 <= k < i ==> out[k] == is_new_link(ts, present@, k),
        decreases links.len() - i,
    {
        let mut clash = false;
        let mut j: usize = 0;
        while j < i && !clash
            invariant
                ts == link_targets(link_views(links@)),
                i < links.len(),
                j <= i,
                clash ==> exists|k: int| 0 <= k < i && ts[k] == ts[i as int],
                !clash ==> forall|k: int| 0 <= k < j ==> ts[k] != ts[i as int],
            decreases i - j + (if clash { 0int } else { 1int }),
        {
            assert(ts[j as int] == links@[j as int].target@);
            assert(ts[i as int] == links@[i as int].target@);
            if links[j].target == links[i].target {
                clash = true;
            } else {
                j += 1;
            }
        }
        let fresh = !present[i] && !clash;
        assert(fresh == is_new_link(ts, present@, i as int));
        out.push(fresh);
        i += 1;
    }
    out
}

/// The position of the last separator, or -1 when there is none.
pub open spec fn last_slash(p: Seq<char>) -> int
    decreases p.len(),
{
    if p.len() == 0 {
        -1
    } else if p.last() == '/' {
        p.len() - 1
    } else {
        last_slash(p.drop_last())
    }
}

/// The directory part of a path that holds a separator: what comes before
/// the last one, or the root.
pub open spec fn parent_of(p: Seq<char>) -> Option<Seq<char>> {
    let k = last_slash(p);
    if k < 0 {
        None
    } else if k == 0 {
        Some(seq!['/'])
    } else {
        Some(p.subrange(0, k))
    }
}

fn parent_dir(p: &str) -> (r: Option<String>)
    ensures
        match r {
            Some(d) => parent_of(p@) == Some(d@),
            None => parent_of(p@) is None,
        },
{
    let v = chars_of(p);
    let mut k: usize = v.len();
    assert(v@.subrange(0, k as int) == v@);
    while k > 0
        invariant
            k <= v.len(),
            v@ == p@,
            last_slash(v@.subrange(0, k as int)) == last_slash(v@),
        decreases k,
    {
        assert(v@.subrange(0, k as int).drop_last() == v@.subrange(0, k - 1));
        assert(v@.subrange(0, k as int).last() == v@[k - 1]);
        if v[k - 1] == '/' {
            if k == 1 {
                let r = String::from_str("/");
                proof {
                    reveal_strlit("/");
                }
                assert(r@ == seq!['/']);
                return Some(r);
            }
            return Some(string_of(&slice_of(&v, 0, k - 1)));
        }
        k -= 1;
    }
    None
}

fn symlink_error(what: String, detail: String) -> (r: OuError)
    ensures
        r matches OuError::Symlink(m) && m@ == what@ + ": "@ + detail@,
{
    OuError::Symlink(what.concat(": ").concat(detail.as_str()))
}

/// Makes `target` a symlink to `source`, given whether the target is
/// already present (as an entry or a symlink). A present target is left
/// alone: no directory is made and no link, and the result is `false`.
/// Otherwise the missing directory is made first, then the link, and the
/// result is `true` when both succeeded.
pub fn link_at<F: FileSystem>(fs: &F, source: &str, target: &str, target_present: bool) -> (r: Result<bool, OuError>)
    ensures
        target_present ==> r == Ok::<bool, OuError>(false),
        !target_present ==> (r matches Ok(b) ==> b),
        r matches Err(e) ==> e is Symlink,
        r matches Err(OuError::Symlink(m)) ==> (exists|p: Seq<char>|
            parent_of(target@) == Some(p) && #[trigger] has_prefix(m@, "failed to create directory "@ + p + ": "@))
            || has_prefix(m@, "failed to create symlink "@ + target@ + " -> "@ + source@ + ": "@),
{
    if target_present {
        return Ok(false);
    }
    if let Some(parent) = parent_dir(target) {
        if !fs.path_exists(parent.as_str()) {
            if let Err(e) = fs.mkdir_all(parent.as_str()) {
                let what = String::from_str("failed to create directory ").concat(parent.as_str());
                let err = symlink_error(what, e);
                proof {
                    lemma_prefix_of_concat(what@ + ": "@, e@);
                }
                return Err(err);
            }
        }
    }
    match fs.symlink(source, target) {
        Ok(()) => Ok(true),
        Err(e) => {
            let what = String::from_str("failed to create symlink ").concat(target).concat(" -> ").concat(source);
            let err = symlink_error(what, e);
            proof {
                lemma_prefix_of_concat(what@ + ": "@, e@);
            }
            Err(err)
        },
    }
}

/// Makes `target` a symlink to `source` unless the target is present; the
/// result tells whether a link was made.
pub fn create_single_symlink<F: FileSystem>(fs: &F, source: &str, target: &str) -> (r: Result<bool, OuError>)
    ensures
        r matches Err(e) ==> e is Symlink,
{
    let present = fs.path_exists(target) || fs.is_symlink(target);
    link_at(fs, source, target, present)
}

/// The links that the patterns ask for, pattern after pattern, given what
/// each glob matched and whether each literal path exists.
pub open spec fn plan_upto(
    source_dir: Seq<char>,
    target_dir: Seq<char>,
    patterns: Seq<Seq<char>>,
    matches: Seq<Seq<Seq<char>>>,
    literal: Seq<bool>,
    n: int,
) -> Seq<LinkView>
    decreases n,
{
    if n <= 0 {
        seq![]
    } else {
        plan_upto(source_dir, target_dir, patterns, matches, literal, n - 1) + pattern_links(
            source_dir,
            target_dir,
            patterns[n - 1],
            matches[n - 1],
            literal[n - 1],
        )
    }
}

proof fn lemma_plan_upto_prefix(
    sd: Seq<char>,
    td: Seq<char>,
    pats: Seq<Seq<char>>,
    ms: Seq<Seq<Seq<char>>>,
    lits: Seq<bool>,
    ms2: Seq<Seq<Seq<char>>>,
    lits2: Seq<bool>,
    n: int,
)
    requires
        0 <= n,
        forall|k: int| 0 <= k < n ==> ms2[k] == ms[k] && lits2[k] == lits[k],
    ensures
        plan_upto(sd, td, pats, ms2, lits2, n) == plan_upto(sd, td, pats, ms, lits, n),
    decreases n,
{
    if n > 0 {
        lemma_plan_upto_prefix(sd, td, pats, ms, lits, ms2, lits2, n - 1);
    }
}

/// The relative paths of the links made: those `new_links` picks.
pub open spec fn created_upto(links: Seq<LinkView>, present: Seq<bool>, n: int) -> Seq<Seq<char>>
    decreases n,
{
    if n <= 0 {
        seq![]
    } else {
        let rest = created_upto(links, present, n - 1);
        if is_new_link(link_targets(links), present, n - 1) {
            rest.push(links[n - 1].relative)
        } else {
            rest
        }
    }
}

pub open spec fn created_of(links: Seq<LinkView>, present: Seq<bool>) -> Seq<Seq<char>> {
    created_upto(links, present, links.len() as int)
}

/// The relative paths of the planned links that are to be made, given for
/// each whether its target is present.
pub fn created_list(plan: &Vec<LinkPlan>, present: &Vec<bool>) -> (r: Vec<String>)
    requires
        present.len() == plan.len(),
    ensures
        string_views(r@) == created_of(link_views(plan@), present@),
{
    let chosen = new_links(plan, present);
    let ghost links = link_views(plan@);
    let mut out: Vec<String> = Vec::new();
    let mut i: usize = 0;
    while i < plan.len()
        invariant
            links == link_views(plan@),
            chosen.len() == plan.len(),
            present.len() == plan.len(),
            forall|k: int| 0 <= k < chosen.len() ==> chosen[k] == is_new_link(link_targets(links), present@, k),
            i <= plan.len(),
            string_views(out@) == created_upto(links, present@, i as int),
        decreases plan.len() - i,
    {
        let ghost before = string_views(out@);
        if chosen[i] {
            out.push(plan[i].relative.clone());
            assert(string_views(out@) == before.push(links[i as int].relative));
        }
        i += 1;
    }
    out
}

/// The created list of a synchronization whose globs matched `matches`,
/// whose literal checks answered `literal` and whose presence checks
/// answered `present`.
pub open spec fn sync_with_answers(
    created: Seq<Seq<char>>,
    source_dir: Seq<char>,
    target_dir: Seq<char>,
    patterns: Seq<Seq<char>>,
    matches: Seq<Seq<Seq<char>>>,
    literal: Seq<bool>,
    present: Seq<bool>,
) -> bool {
    let links = plan_upto(source_dir, target_dir, patterns, matches, literal, patterns.len() as int);
    &&& matches.len() == patterns.len()
    &&& literal.len() == patterns.len()
    &&& present.len() == links.len()
    &&& created == created_of(links, present)
}

/// The created lists a synchronization can report: those of the plan for
/// some answers of the globs, the literal checks and the presence checks.
pub open spec fn sync_ok(created: Seq<Seq<char>>, source_dir: Seq<char>, target_dir: Seq<char>, patterns: Seq<Seq<char>>) -> bool {
    exists|found: Seq<Seq<Seq<char>>>, literal: Seq<bool>, present: Seq<bool>|
        #[trigger] sync_with_answers(created, source_dir, target_dir, patterns, found, literal, present)
}

fn copy_link(l: &LinkPlan) -> (r: LinkPlan)
    ensures
        r@ == l@,
{
    LinkPlan { source: l.source.clone(), target: l.target.clone(), relative: l.relative.clone() }
}

fn append_links(plan: &mut Vec<LinkPlan>, links: &Vec<LinkPlan>)
    ensures
        link_views(final(plan)@) == link_views(old(plan)@) + link_views(links@),
{
    let mut k: usize = 0;
    while k < links.len()
        invariant
            k <= links.len(),
            link_views(plan@) == link_views(old(plan)@) + link_views(links@).subrange(0, k as int),
        decreases links.len() - k,
    {
        let ghost before = link_views(plan@);
        plan.push(copy_link(&links[k]));
        assert(link_views(plan@) == before.push(links@[k as int]@));
        assert(link_views(links@).subrange(0, k + 1) == link_views(links@).subrange(0, k as int).push(links@[k as int]@));
        k += 1;
    }
    assert(link_views(links@).subrange(0, k as int) == link_views(links@));
}

/// Links every path that the patterns select under `source_dir` into
/// `target_dir`, at the same relative path. Returns the relative paths that
/// were newly linked, in plan order; targets already present, or already
/// planned, are skipped silently.
pub fn create_symlinks<F: FileSystem>(
    fs: &F,
    source_dir: &str,
    target_dir: &str,
    patterns: &Vec<String>,
) -> (r: Result<Vec<String>, OuError>)
    ensures
        r matches Err(e) ==> e is Symlink,
        patterns.len() == 0 ==> (r matches Ok(v) && v.len() == 0),
        r matches Ok(v) ==> sync_ok(string_views(v@), source_dir@, target_dir@, string_views(patterns@)),
{
    let ghost pats = string_views(patterns@);
    let ghost mut ms: Seq<Seq<Seq<char>>> = seq![];
    let ghost mut lits: Seq<bool> = seq![];
    let mut plan: Vec<LinkPlan> = Vec::new();
    let mut p: usize = 0;
    while p < patterns.len()
        invariant
            pats == string_views(patterns@),
            p <= patterns.len(),
            ms.len() == p,
            lits.len() == p,
            link_views(plan@) == plan_upto(source_dir@, target_dir@, pats, ms, lits, p as int),
        decreases patterns.len() - p,
    {
        let pattern = patterns[p].as_str();
        let matches = match fs.glob(source_dir, pattern) {
            Ok(m) => m,
            Err(e) => {
                return Err(
                    symlink_error(String::from_str("glob error for pattern '").concat(pattern).concat("'"), e),
                );
            },
        };
        let literal_exists = if matches.len() == 0 {
            let src = join(source_dir, pattern);
            fs.path_exists(src.as_str())
        } else {
            false
        };
        let links = plan_pattern(source_dir, target_dir, pattern, &matches, literal_exists)?;
        append_links(&mut plan, &links);
        proof {
            let ms2 = ms.push(string_views(matches@));
            let lits2 = lits.push(literal_exists);
            assert(pats[p as int] == patterns@[p as int]@);
            lemma_plan_upto_prefix(source_dir@, target_dir@, pats, ms, lits, ms2, lits2, p as int);
            ms = ms2;
            lits = lits2;
        }
        p += 1;
    }
    proof {
        if patterns.len() == 0 {
            assert(plan_upto(source_dir@, target_dir@, pats, ms, lits, 0) == Seq::<LinkView>::empty());
            assert(link_views(plan@).len() == plan@.len());
        }
    }
    let mut none_present: Vec<bool> = Vec::new();
    let mut i: usize = 0;
    while i < plan.len()
        invariant
            i <= plan.len(),
            none_present.len() == i,
            forall|k: int| 0 <= k < i ==> !none_present[k],
        decreases plan.len() - i,
    {
        none_present.push(false);
        i += 1;
    }
    // The first link to each target; a later one to the same target is
    // never made.
    let first = new_links(&plan, &none_present);
    let ghost targets = link_targets(link_views(plan@));
    // Each target's presence is asked just before its link is made, so that
    // an earlier link (to a directory above it) is seen.
    let mut present: Vec<bool> = Vec::new();
    let mut i: usize = 0;
    while i < plan.len()
        invariant
            pats == string_views(patterns@),
            ms.len() == patterns.len(),
            lits.len() == patterns.len(),
            link_views(plan@) == plan_upto(source_dir@, target_dir@, pats, ms, lits, patterns.len() as int),
            targets == link_targets(link_views(plan@)),
            patterns.len() == 0 ==> plan.len() == 0,
            first.len() == plan.len(),
            none_present.len() == plan.len(),
            forall|k: int| 0 <= k < plan.len() ==> !none_present[k],
            forall|k: int| 0 <= k < plan.len() ==> first[k] == is_new_link(targets, none_present@, k),
            i <= plan.len(),
            present.len() == i,
            forall|k: int| 0 <= k < i ==> !first[k] ==> present[k],
        decreases plan.len() - i,
    {
        if first[i] {
            let t = plan[i].target.as_str();
            let p = fs.path_exists(t) || fs.is_symlink(t);
            present.push(p);
            if !p {
                link_at(fs, plan[i].source.as_str(), t, false)?;
            }
        } else {
            present.push(true);
        }
        i += 1;
    }
    let created = created_list(&plan, &present);
    proof {
        if patterns.len() == 0 {
            assert(plan_upto(source_dir@, target_dir@, pats, ms, lits, 0) == Seq::<LinkView>::empty());
        }
    }
    assert(sync_with_answers(string_views(created@), source_dir@, target_dir@, pats, ms, lits, present@));
    assert(string_views(created@).len() == created@.len());
    assert(sync_ok(string_views(created@), source_dir@, target_dir@, string_views(patterns@)));
    Ok(created)
}

pub open spec fn presence(targets: Seq<Seq<char>>, present: Set<Seq<char>>) -> Seq<bool> {
    Seq::new(targets.len(), |i: int| present.contains(targets[i]))
}

/// The targets that one synchronization links.
pub open spec fn linked_targets(targets: Seq<Seq<char>>, present: Set<Seq<char>>) -> Set<Seq<char>> {
    Set::new(
        |t: Seq<char>|
            exists|i: int|
                0 <= i < targets.len() && is_new_link(targets, presence(targets, present), i)
                    && targets[i] == t,
    )
}

/// Synchronization is idempotent: every target that was missing gets linked
/// once, and once the links made are present, a second run over the same
/// plan picks nothing.
pub proof fn lemma_sync_idempotent(targets: Seq<Seq<char>>, present: Set<Seq<char>>)
    ensures
        forall|i: int| 0 <= i < targets.len() && !present.contains(targets[i])
            ==> #[trigger] linked_targets(targets, present).contains(targets[i]),
        forall|i: int| 0 <= i < targets.len() ==> !#[trigger] is_new_link(
            targets,
            presence(targets, present.union(linked_targets(targets, present))),
            i,
        ),
{
    let made = linked_targets(targets, present);
    let p1 = presence(targets, present);
    assert forall|i: int| 0 <= i < targets.len() && !present.contains(targets[i])
        implies #[trigger] made.contains(targets[i]) by {
        let t = targets[i];
        let k = choose_first(targets, t, i);
        assert(p1[k] == present.contains(targets[k]));
        assert(is_new_link(targets, p1, k));
    }
    assert forall|i: int| 0 <= i < targets.len() implies !#[trigger] is_new_link(
        targets,
        presence(targets, present.union(made)),
        i,
    ) by {
        if !present.contains(targets[i]) {
            let k = choose_first(targets, targets[i], i);
            assert(p1[k] == present.contains(targets[k]));
            assert(is_new_link(targets, p1, k));
            assert(made.contains(targets[i]));
        }
        assert(presence(targets, present.union(made))[i] == present.union(made).contains(targets[i]));
    }
}

/// The first position that holds `t`, given that position `i` holds it.
proof fn choose_first(targets: Seq<Seq<char>>, t: Seq<char>, i: int) -> (k: int)
    requires
        0 <= i < targets.len(),
        targets[i] == t,
    ensures
        0 <= k <= i,
        targets[k] == t,
        forall|j: int| 0 <= j < k ==> targets[j] != t,
    decreases i,
{
    if exists|j: int| 0 <= j < i && targets[j] == t {
        let j = choose|j: int| 0 <= j < i && targets[j] == t;
        choose_first(targets, t, j)
    } else {
        i
    }
}

} // verus!

verus! {

proof fn lemma_created_none(links: Seq<LinkView>, present: Seq<bool>, n: int)
    requires
        forall|i: int| 0 <= i < links.len() ==> !#[trigger] is_new_link(link_targets(links), present, i),
        n <= links.len(),
    ensures
        created_upto(links, present, n) == Seq::<Seq<char>>::empty(),
    decreases n,
{
    if n > 0 {
        lemma_created_none(links, present, n - 1);
    }
}

/// A second synchronization over the same plan, once the links of the first
/// are present, reports nothing: every target is present or repeated.
pub proof fn lemma_second_sync_creates_nothing(links: Seq<LinkView>, present: Set<Seq<char>>)
    ensures
        created_of(
            links,
            presence(link_targets(links), present.union(linked_targets(link_targets(links), present))),
        ) == Seq::<Seq<char>>::empty(),
{
    let ts = link_targets(links);
    lemma_sync_idempotent(ts, present);
    let p2 = presence(ts, present.union(linked_targets(ts, present)));
    assert forall|i: int| 0 <= i < links.len() implies !#[trigger] is_new_link(link_targets(links), p2, i) by {
        assert(0 <= i < ts.len());
    }
    lemma_created_none(links, p2, links.len() as int);
}

} // verus!
