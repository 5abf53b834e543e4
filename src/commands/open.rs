//! Choosing a worktree to open in a terminal tab.

use vstd::prelude::*;

use crate::config::{Config, ConfigView};
use crate::error::OuError;
use crate::git::types::{Worktree, WorktreeView, worktree_views};
use crate::text::{chars_of, replace_all, replace_chars, string_of, trim, trimmed};

verus! {

/// One entry of the selection list.
#[derive(Debug, Clone, PartialEq, Eq)]
pub struct OpenChoice {
    pub branch: String,
    pub path: String,
}

pub struct ChoiceView {
    pub branch: Seq<char>,
    pub path: Seq<char>,
}

impl View for OpenChoice {
    type V = ChoiceView;

    open spec fn view(&self) -> ChoiceView {
        ChoiceView { branch: self.branch@, path: self.path@ }
    }
}

pub open spec fn choice_views(v: Seq<OpenChoice>) -> Seq<ChoiceView> {
    v.map_values(|c: OpenChoice| c@)
}

/// The non-bare worktrees, in order, each with its branch (or
/// `(detached)`) and path.
pub open spec fn choices_spec(ws: Seq<WorktreeView>) -> Seq<ChoiceView>
    decreases ws.len(),
{
    if ws.len() == 0 {
        seq![]
    } else {
        let rest = choices_spec(ws.drop_last());
        let w = ws.last();
        if w.is_bare {
            rest
        } else {
            rest.push(
                ChoiceView {
                    branch: match w.branch {
                        Some(b) => b,
                        None => "(detached)"@,
                    },
                    path: w.path,
                },
            )
        }
    }
}

pub fn open_choices(worktrees: &Vec<Worktree>) -> (r: Vec<OpenChoice>)
    ensures
        choice_views(r@) == choices_spec(worktree_views(worktrees@)),
{
    let ghost ws = worktree_views(worktrees@);
    let mut out: Vec<OpenChoice> = Vec::new();
    let mut i: usize = 0;
    assert(ws.subrange(0, 0) == Seq::<WorktreeView>::empty());
    assert(choice_views(out@) == Seq::<ChoiceView>::empty());
    while i < worktrees.len()
        invariant
            ws == worktree_views(worktrees@),
            i <= worktrees.len(),
            choice_views(out@) == choices_spec(ws.subrange(0, i as int)),
        decreases worktrees.len() - i,
    {
        let ghost before = choice_views(out@);
        assert(ws.subrange(0, i + 1).drop_last() == ws.subrange(0, i as int));
        assert(ws.subrange(0, i + 1).last() == worktrees@[i as int]@);
        let w = &worktrees[i];
        if !w.is_bare {
            let branch = match &w.branch {
                Some(b) => b.clone(),
                None => String::from_str("(detached)"),
            };
            let c = OpenChoice { branch, path: w.path.clone() };
            out.push(c);
            assert(choice_views(out@) == before.push(c@));
        }
        i += 1;
    }
    assert(ws.subrange(0, i as int) == ws);
    out
}

pub open spec fn is_digit(c: char) -> bool {
    '0' <= c && c <= '9'
}

/// The number that a run of decimal digits writes.
pub open spec fn digits_value(s: Seq<char>) -> int
    decreases s.len(),
{
    if s.len() == 0 {
        0
    } else {
        digits_value(s.drop_last()) * 10 + (s.last() as int - '0' as int)
    }
}

/// The digits of a number as `usize::from_str` reads it: an optional `+`,
/// then at least one digit.
pub open spec fn number_digits(s: Seq<char>) -> Option<Seq<char>> {
    let d = unsigned_part(s);
    if d.len() > 0 && all_digits(d) {
        Some(d)
    } else {
        None
    }
}

pub open spec fn unsigned_part(s: Seq<char>) -> Seq<char> {
    if s.len() > 0 && s[0] == '+' {
        s.drop_first()
    } else {
        s
    }
}

pub open spec fn all_digits(d: Seq<char>) -> bool {
    forall|i: int| 0 <= i < d.len() ==> is_digit(#[trigger] d[i])
}

/// The position picked by the answer `input` among `count` entries: the
/// answer, trimmed, is a number from 1 to `count`.
pub open spec fn selection_spec(input: Seq<char>, count: nat) -> Result<nat, Seq<char>> {
    match number_digits(trim(input)) {
        None => Err("invalid selection"@),
        Some(d) => {
            let n = digits_value(d);
            if n > usize::MAX {
                Err("invalid selection"@)
            } else if n == 0 || n > count {
                Err("selection out of range"@)
            } else {
                Ok((n - 1) as nat)
            }
        },
    }
}

proof fn lemma_digits_value_monotonic(s: Seq<char>, k: int)
    requires
        0 <= k <= s.len(),
        forall|i: int| 0 <= i < s.len() ==> is_digit(#[trigger] s[i]),
    ensures
        digits_value(s.subrange(0, k)) <= digits_value(s),
        digits_value(s) >= 0,
    decreases s.len(),
{
    if s.len() > 0 {
        let p = s.drop_last();
        assert forall|i: int| 0 <= i < p.len() implies is_digit(#[trigger] p[i]) by {
            assert(p[i] == s[i]);
        }
        if k < s.len() {
            assert(s.subrange(0, k) == p.subrange(0, k));
            lemma_digits_value_monotonic(p, k);
        } else {
            assert(s.subrange(0, k) == s);
            lemma_digits_value_monotonic(p, 0);
        }
        assert(digits_value(p) * 10 >= digits_value(p)) by (nonlinear_arith)
            requires digits_value(p) >= 0;
    } else {
        assert(s.subrange(0, k) == s);
    }
}

/// Reads the user's answer: the index (from 0) of the chosen entry.
pub fn parse_selection(input: &str, count: usize) -> (r: Result<usize, OuError>)
    ensures
        match selection_spec(input@, count as nat) {
            Ok(i) => (r matches Ok(j) && j as nat == i),
            Err(m) => (r matches Err(OuError::Git(e)) && e@ == m),
        },
{
    let t = trimmed(&chars_of(input));
    let start: usize = if t.len() > 0 && t[0] == '+' {
        1
    } else {
        0
    };
    let ghost d = t@.subrange(start as int, t@.len() as int);
    assert(d == if t@.len() > 0 && t@[0] == '+' { t@.drop_first() } else { t@ });
    if start >= t.len() {
        return Err(OuError::Git(String::from_str("invalid selection")));
    }
    let mut n: usize = 0;
    let mut i: usize = start;
    let mut overflow = false;
    while i < t.len()
        invariant
            start <= i <= t.len(),
            t@ == trim(input@),
            start as int == (if t@.len() > 0 && t@[0] == '+' { 1int } else { 0int }),
            d == t@.subrange(start as int, t@.len() as int),
            d == unsigned_part(t@),
            forall|j: int| 0 <= j < i - start ==> is_digit(#[trigger] d[j]),
            !overflow ==> n as int == digits_value(d.subrange(0, i - start)),
            overflow ==> digits_value(d.subrange(0, i - start)) > usize::MAX,
            overflow ==> forall|j: int| 0 <= j < i - start ==> is_digit(#[trigger] d[j]),
        decreases t.len() - i,
    {
        let c = t[i];
        if !('0' <= c && c <= '9') {
            assert(d[i - start] == c);
            assert(!is_digit(d[i - start]));
            assert(0 <= i - start < d.len());
            assert(!all_digits(d));
            assert(number_digits(t@) is None);
            return Err(OuError::Git(String::from_str("invalid selection")));
        }
        let ghost pre = d.subrange(0, i - start);
        let ghost next = d.subrange(0, i + 1 - start);
        assert(next.drop_last() == pre);
        assert(next.last() == c);
        assert(d[i - start] == c);
        let digit = (c as u32 - '0' as u32) as usize;
        if !overflow {
            if n > (usize::MAX - digit) / 10 {
                overflow = true;
                assert(n * 10 + digit > usize::MAX) by (nonlinear_arith)
                    requires n > (usize::MAX - digit) / 10, digit <= 9;
            } else {
                assert(n * 10 + digit <= usize::MAX) by (nonlinear_arith)
                    requires n <= (usize::MAX - digit) / 10, digit <= 9;
                n = n * 10 + digit;
            }
        } else {
            assert(digits_value(next) >= digits_value(pre)) by {
                assert forall|j: int| 0 <= j < next.len() implies is_digit(#[trigger] next[j]) by {
                    assert(next[j] == d[j]);
                }
                lemma_digits_value_monotonic(next, pre.len() as int);
                assert(next.subrange(0, pre.len() as int) == pre);
            }
        }
        i += 1;
    }
    assert(d.subrange(0, t.len() - start) == d);
    if overflow {
        return Err(OuError::Git(String::from_str("invalid selection")));
    }
    if n == 0 || n > count {
        return Err(OuError::Git(String::from_str("selection out of range")));
    }
    Ok(n - 1)
}

/// The title of the tab for a branch: the configured template with
/// `{name}` replaced, or else the branch itself.
pub open spec fn open_title_spec(c: ConfigView, branch: Seq<char>) -> Seq<char> {
    match c.wezterm {
        Some(w) => match w.tab_title_template {
            Some(t) => replace_all(t, "{name}"@, branch),
            None => branch,
        },
        None => branch,
    }
}

pub fn open_title(config: &Config, branch: &str) -> (r: String)
    ensures
        r@ == open_title_spec(config@, branch@),
{
    match &config.wezterm {
        Some(w) => match &w.tab_title_template {
            Some(t) => {
                let pat = chars_of("{name}");
                proof {
                    reveal_strlit("{name}");
                }
                assert(pat.len() > 0);
                string_of(&replace_chars(&chars_of(t.as_str()), &pat, &chars_of(branch)))
            },
            None => String::from_str(branch),
        },
        None => String::from_str(branch),
    }
}

} // verus!
