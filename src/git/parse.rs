//! Parsers for the worktree listing (porcelain form) and the branch listing.

use vstd::prelude::*;

use crate::error::OuError;
use crate::git::types::{branch_views, worktree_views, Branch, BranchView, Worktree, WorktreeView};
use crate::text::{
    lemma_lines_append, lemma_one_line, line_clean, lines_from, drop_cr, chars_of, contains_infix, fields_of, has_infix, has_prefix, lines_of, same_chars,
    slice_of, split_fields, split_lines, string_of, trim, trimmed, views,
};

verus! {

/// What the worktree parser has gathered of the block it is in.
pub struct PendingView {
    pub path: Option<Seq<char>>,
    pub branch: Option<Seq<char>>,
    pub head: Seq<char>,
    pub bare: bool,
    pub locked: bool,
    pub reason: Option<Seq<char>>,
    pub prunable: bool,
}

pub struct ScanState {
    pub cur: PendingView,
    pub done: Seq<WorktreeView>,
}

pub open spec fn empty_pending() -> PendingView {
    PendingView {
        path: None,
        branch: None,
        head: seq![],
        bare: false,
        locked: false,
        reason: None,
        prunable: false,
    }
}

/// The text after a prefix.
pub open spec fn after(s: Seq<char>, p: Seq<char>) -> Seq<char> {
    s.subrange(p.len() as int, s.len() as int)
}

/// A branch ref with the local heads namespace taken off.
pub open spec fn short_branch(r: Seq<char>) -> Seq<char> {
    if has_prefix(r, "refs/heads/"@) {
        after(r, "refs/heads/"@)
    } else {
        r
    }
}

pub open spec fn record_of(p: PendingView) -> WorktreeView {
    WorktreeView {
        path: p.path.unwrap(),
        branch: p.branch,
        head: p.head,
        is_bare: p.bare,
        is_locked: p.locked,
        lock_reason: p.reason,
        is_prunable: p.prunable,
    }
}

/// The effect of one line of the listing. A blank line closes the block
/// when a `worktree` line opened it; unknown lines change nothing.
pub open spec fn scan_line(st: ScanState, line: Seq<char>) -> ScanState {
    let c = st.cur;
    if line.len() == 0 {
        if c.path is Some {
            ScanState { cur: empty_pending(), done: st.done.push(record_of(c)) }
        } else {
            st
        }
    } else if has_prefix(line, "worktree "@) {
        ScanState { cur: PendingView { path: Some(after(line, "worktree "@)), ..c }, ..st }
    } else if has_prefix(line, "HEAD "@) {
        ScanState { cur: PendingView { head: after(line, "HEAD "@), ..c }, ..st }
    } else if has_prefix(line, "branch "@) {
        ScanState {
            cur: PendingView { branch: Some(short_branch(after(line, "branch "@))), ..c },
            ..st
        }
    } else if line == "bare"@ {
        ScanState { cur: PendingView { bare: true, ..c }, ..st }
    } else if line == "locked"@ {
        ScanState { cur: PendingView { locked: true, ..c }, ..st }
    } else if has_prefix(line, "locked "@) {
        ScanState {
            cur: PendingView { locked: true, reason: Some(after(line, "locked "@)), ..c },
            ..st
        }
    } else if line == "prunable"@ {
        ScanState { cur: PendingView { prunable: true, ..c }, ..st }
    } else {
        st
    }
}

pub open spec fn scan_lines(st: ScanState, lines: Seq<Seq<char>>) -> ScanState
    decreases lines.len(),
{
    if lines.len() == 0 {
        st
    } else {
        scan_lines(scan_line(st, lines[0]), lines.drop_first())
    }
}

/// The records at the end of the input: a block still open is closed.
pub open spec fn finish(st: ScanState) -> Seq<WorktreeView> {
    if st.cur.path is Some {
        st.done.push(record_of(st.cur))
    } else {
        st.done
    }
}

pub open spec fn start_state() -> ScanState {
    ScanState { cur: empty_pending(), done: seq![] }
}

/// The worktree records that a sequence of listing lines describes.
pub open spec fn worktrees_of_lines(lines: Seq<Seq<char>>) -> Seq<WorktreeView> {
    finish(scan_lines(start_state(), lines))
}

/// The worktree records that a porcelain listing describes.
pub open spec fn worktree_listing(s: Seq<char>) -> Seq<WorktreeView> {
    worktrees_of_lines(lines_of(s))
}

/// The record of one non-blank line of the branch listing.
pub open spec fn branch_of_line(l: Seq<char>) -> BranchView {
    let parts = fields_of(l, '\t');
    BranchView {
        name: parts[0],
        upstream: if parts.len() > 1 && parts[1].len() > 0 {
            Some(parts[1])
        } else {
            None
        },
        is_head: parts.len() > 2 && trim(parts[2]) == "*"@,
        gone: parts.len() > 3 && has_infix(parts[3], "[gone]"@),
    }
}

/// The branch records of a listing: each line trimmed, blank lines skipped.
pub open spec fn branches_of_lines(lines: Seq<Seq<char>>) -> Seq<BranchView>
    decreases lines.len(),
{
    if lines.len() == 0 {
        seq![]
    } else {
        let l = trim(lines[0]);
        let rest = branches_of_lines(lines.drop_first());
        if l.len() == 0 {
            rest
        } else {
            seq![branch_of_line(l)] + rest
        }
    }
}

pub open spec fn branch_listing(s: Seq<char>) -> Seq<BranchView> {
    branches_of_lines(lines_of(s))
}

/// A well-formed block of the worktree listing: a `worktree` line, and no
/// blank line.
pub open spec fn block_ok(b: Seq<Seq<char>>) -> bool {
    &&& exists|i: int| 0 <= i < b.len() && has_prefix(#[trigger] b[i], "worktree "@)
    &&& forall|i: int| 0 <= i < b.len() ==> #[trigger] b[i].len() > 0
}

pub open spec fn has_branch_line(b: Seq<Seq<char>>) -> bool {
    exists|i: int| 0 <= i < b.len() && has_prefix(#[trigger] b[i], "branch "@)
}

/// `n` blank lines.
pub open spec fn blanks(n: nat) -> Seq<Seq<char>> {
    Seq::new(n, |_i: int| Seq::<char>::empty())
}

/// The lines of a listing made of the given blocks, block `k` followed by
/// `gaps[k]` blank lines.
pub open spec fn join_blocks(bs: Seq<Seq<Seq<char>>>, gaps: Seq<nat>) -> Seq<Seq<char>>
    decreases bs.len(),
{
    if bs.len() == 0 || gaps.len() == 0 {
        seq![]
    } else {
        bs[0] + blanks(gaps[0]) + join_blocks(bs.drop_first(), gaps.drop_first())
    }
}

pub open spec fn gaps_ok(bs: Seq<Seq<Seq<char>>>, gaps: Seq<nat>) -> bool {
    gaps.len() == bs.len() && forall|k: int| 0 <= k < gaps.len() ==> #[trigger] gaps[k] >= 1
}

proof fn lemma_scan_append(st: ScanState, a: Seq<Seq<char>>, b: Seq<Seq<char>>)
    ensures
        scan_lines(st, a + b) == scan_lines(scan_lines(st, a), b),
    decreases a.len(),
{
    if a.len() > 0 {
        assert((a + b).drop_first() == a.drop_first() + b);
        lemma_scan_append(scan_line(st, a[0]), a.drop_first(), b);
    } else {
        assert(a + b == b);
    }
}

proof fn lemma_blanks_noop(st: ScanState, n: nat)
    requires
        st.cur.path is None,
    ensures
        scan_lines(st, blanks(n)) == st,
    decreases n,
{
    if n > 0 {
        assert(blanks(n).drop_first() == blanks((n - 1) as nat));
        assert(blanks(n)[0] == Seq::<char>::empty());
        lemma_blanks_noop(st, (n - 1) as nat);
    }
}

proof fn lemma_block_lines(st: ScanState, b: Seq<Seq<char>>)
    requires
        forall|i: int| 0 <= i < b.len() ==> #[trigger] b[i].len() > 0,
    ensures
        scan_lines(st, b).done == st.done,
        st.cur.path is Some ==> scan_lines(st, b).cur.path is Some,
        (exists|i: int| 0 <= i < b.len() && has_prefix(#[trigger] b[i], "worktree "@)) ==> scan_lines(st, b).cur.path is Some,
        !has_branch_line(b) && st.cur.branch is None ==> scan_lines(st, b).cur.branch is None,
    decreases b.len(),
{
    if b.len() > 0 {
        let st1 = scan_line(st, b[0]);
        assert(b[0].len() > 0);
        let rest = b.drop_first();
        assert forall|i: int| 0 <= i < rest.len() implies #[trigger] rest[i].len() > 0 by {
            assert(rest[i] == b[i + 1]);
        }
        if !has_branch_line(b) {
            assert(!has_prefix(b[0], "branch "@));
            assert forall|i: int| 0 <= i < rest.len() implies !has_prefix(#[trigger] rest[i], "branch "@) by {
                assert(rest[i] == b[i + 1]);
            }
        }
        if exists|i: int| 0 <= i < b.len() && has_prefix(#[trigger] b[i], "worktree "@) {
            let i = choose|i: int| 0 <= i < b.len() && has_prefix(#[trigger] b[i], "worktree "@);
            if i > 0 {
                assert(rest[i - 1] == b[i]);
            }
        }
        lemma_block_lines(st1, rest);
    }
}

proof fn lemma_join_blocks(done: Seq<WorktreeView>, bs: Seq<Seq<Seq<char>>>, gaps: Seq<nat>)
    requires
        forall|k: int| 0 <= k < bs.len() ==> block_ok(#[trigger] bs[k]),
        gaps_ok(bs, gaps),
    ensures
        ({
            let st = scan_lines(ScanState { cur: empty_pending(), done }, join_blocks(bs, gaps));
            &&& st.cur == empty_pending()
            &&& st.done.len() == done.len() + bs.len()
            &&& st.done.subrange(0, done.len() as int) == done
            &&& forall|k: int| 0 <= k < bs.len() && !has_branch_line(#[trigger] bs[k])
                ==> st.done[done.len() + k].branch is None
        }),
    decreases bs.len(),
{
    let st0 = ScanState { cur: empty_pending(), done };
    if bs.len() == 0 {
        assert(done.subrange(0, done.len() as int) == done);
    } else {
        let b = bs[0];
        let g = gaps[0];
        assert(block_ok(bs[0]));
        assert(g >= 1);
        let rest = bs.drop_first();
        let grest = gaps.drop_first();
        assert forall|k: int| 0 <= k < rest.len() implies block_ok(#[trigger] rest[k]) by {
            assert(rest[k] == bs[k + 1]);
        }
        assert forall|k: int| 0 <= k < grest.len() implies #[trigger] grest[k] >= 1 by {
            assert(grest[k] == gaps[k + 1]);
        }
        let blank: Seq<Seq<char>> = seq![seq![]];
        assert(blanks(g) == blank + blanks((g - 1) as nat));
        lemma_scan_append(st0, b + blanks(g), join_blocks(rest, grest));
        lemma_scan_append(st0, b, blanks(g));
        lemma_block_lines(st0, b);
        let st1 = scan_lines(st0, b);
        lemma_scan_append(st1, blank, blanks((g - 1) as nat));
        assert(blank.drop_first() == Seq::<Seq<char>>::empty());
        assert(blank[0] == Seq::<char>::empty());
        assert(scan_lines(scan_line(st1, blank[0]), blank.drop_first()) == scan_line(st1, blank[0]));
        let d2 = done.push(record_of(st1.cur));
        let st2 = ScanState { cur: empty_pending(), done: d2 };
        assert(scan_lines(st1, blank) == st2);
        lemma_blanks_noop(st2, (g - 1) as nat);
        assert(scan_lines(st0, b + blanks(g)) == st2);
        lemma_join_blocks(d2, rest, grest);
        let fin = scan_lines(st2, join_blocks(rest, grest));
        assert(fin.done.subrange(0, done.len() as int) == done) by {
            assert(fin.done.subrange(0, d2.len() as int) == d2);
            assert(fin.done.subrange(0, done.len() as int) == d2.subrange(0, done.len() as int));
        }
        assert forall|k: int| 0 <= k < bs.len() && !has_branch_line(#[trigger] bs[k])
            implies fin.done[done.len() + k].branch is None by {
            if k == 0 {
                assert(fin.done.subrange(0, d2.len() as int)[done.len() as int] == d2[done.len() as int]);
            } else {
                assert(rest[k - 1] == bs[k]);
                assert(d2.len() + (k - 1) == done.len() + k);
            }
        }
    }
}

/// A listing made of well-formed blocks, each followed by one or more blank
/// lines, gives one record per block, and a block without a `branch` line
/// gives a record whose branch is absent.
pub proof fn lemma_one_record_per_block(bs: Seq<Seq<Seq<char>>>, gaps: Seq<nat>)
    requires
        forall|k: int| 0 <= k < bs.len() ==> block_ok(#[trigger] bs[k]),
        gaps_ok(bs, gaps),
    ensures
        worktrees_of_lines(join_blocks(bs, gaps)).len() == bs.len(),
        forall|k: int| 0 <= k < bs.len() && !has_branch_line(#[trigger] bs[k])
            ==> worktrees_of_lines(join_blocks(bs, gaps))[k].branch is None,
{
    lemma_join_blocks(seq![], bs, gaps);
}

/// The text of a block: each line followed by a line break.
pub open spec fn block_text(b: Seq<Seq<char>>) -> Seq<char>
    decreases b.len(),
{
    if b.len() == 0 {
        seq![]
    } else {
        b[0] + seq!['\n'] + block_text(b.drop_first())
    }
}

/// `n` line breaks.
pub open spec fn newlines(n: nat) -> Seq<char> {
    Seq::new(n, |_i: int| '\n')
}

/// The text of a listing: block `k`'s text followed by `gaps[k]` blank lines.
pub open spec fn listing_text(bs: Seq<Seq<Seq<char>>>, gaps: Seq<nat>) -> Seq<char>
    decreases bs.len(),
{
    if bs.len() == 0 || gaps.len() == 0 {
        seq![]
    } else {
        block_text(bs[0]) + newlines(gaps[0]) + listing_text(bs.drop_first(), gaps.drop_first())
    }
}

proof fn lemma_block_text_lines(b: Seq<Seq<char>>, rest: Seq<char>)
    requires
        forall|i: int| 0 <= i < b.len() ==> line_clean(#[trigger] b[i]),
    ensures
        lines_from(block_text(b) + rest, seq![]) == b + lines_from(rest, seq![]),
    decreases b.len(),
{
    if b.len() == 0 {
        assert(block_text(b) + rest == rest);
        assert(b + lines_from(rest, seq![]) == lines_from(rest, seq![]));
    } else {
        let nl: Seq<char> = seq!['\n'];
        let b1 = b.drop_first();
        assert forall|i: int| 0 <= i < b1.len() implies line_clean(#[trigger] b1[i]) by {
            assert(b1[i] == b[i + 1]);
        }
        assert(line_clean(b[0]));
        let a = b[0] + nl;
        let tail = block_text(b1) + rest;
        assert(block_text(b) + rest == a + tail);
        lemma_lines_append(a, tail, seq![]);
        lemma_one_line(b[0], seq![]);
        assert(Seq::<char>::empty() + b[0] == b[0]);
        assert(drop_cr(b[0]) == b[0]);
        lemma_block_text_lines(b1, rest);
        assert(seq![b[0]] + (b1 + lines_from(rest, seq![])) == b + lines_from(rest, seq![]));
    }
}

proof fn lemma_newlines_lines(n: nat, rest: Seq<char>)
    ensures
        lines_from(newlines(n) + rest, seq![]) == blanks(n) + lines_from(rest, seq![]),
    decreases n,
{
    if n == 0 {
        assert(newlines(n) + rest == rest);
        assert(blanks(n) + lines_from(rest, seq![]) == lines_from(rest, seq![]));
    } else {
        let t = newlines(n) + rest;
        assert(t[0] == '\n');
        assert(t.drop_first() == newlines((n - 1) as nat) + rest);
        assert(lines_from(t, seq![]) == seq![drop_cr(seq![])] + lines_from(t.drop_first(), seq![]));
        assert(drop_cr(seq![]) == Seq::<char>::empty());
        lemma_newlines_lines((n - 1) as nat, rest);
        assert(blanks(n) == seq![Seq::<char>::empty()] + blanks((n - 1) as nat));
    }
}

proof fn lemma_listing_text_lines(bs: Seq<Seq<Seq<char>>>, gaps: Seq<nat>)
    requires
        forall|k: int, i: int| 0 <= k < bs.len() && 0 <= i < bs[k].len() ==> line_clean(#[trigger] bs[k][i]),
        gaps.len() == bs.len(),
    ensures
        lines_of(listing_text(bs, gaps)) == join_blocks(bs, gaps),
    decreases bs.len(),
{
    if bs.len() > 0 {
        let rest = bs.drop_first();
        let grest = gaps.drop_first();
        assert forall|k: int, i: int| 0 <= k < rest.len() && 0 <= i < rest[k].len()
            implies line_clean(#[trigger] rest[k][i]) by {
            assert(rest[k] == bs[k + 1]);
        }
        assert forall|i: int| 0 <= i < bs[0].len() implies line_clean(#[trigger] bs[0][i]) by {
        }
        let tail = newlines(gaps[0]) + listing_text(rest, grest);
        assert(listing_text(bs, gaps) == block_text(bs[0]) + tail);
        lemma_block_text_lines(bs[0], tail);
        lemma_newlines_lines(gaps[0], listing_text(rest, grest));
        lemma_listing_text_lines(rest, grest);
        assert(bs[0] + (blanks(gaps[0]) + join_blocks(rest, grest)) == bs[0] + blanks(gaps[0]) + join_blocks(rest, grest));
    }
}

/// A listing text made of well-formed blocks, each line ended by a line
/// break and each block followed by one or more blank lines, gives one
/// record per block; a block without a `branch` line gives a record whose
/// branch is absent.
pub proof fn lemma_listing_one_record_per_block(bs: Seq<Seq<Seq<char>>>, gaps: Seq<nat>)
    requires
        forall|k: int| 0 <= k < bs.len() ==> block_ok(#[trigger] bs[k]),
        forall|k: int, i: int| 0 <= k < bs.len() && 0 <= i < bs[k].len() ==> line_clean(#[trigger] bs[k][i]),
        gaps_ok(bs, gaps),
    ensures
        worktree_listing(listing_text(bs, gaps)).len() == bs.len(),
        forall|k: int| 0 <= k < bs.len() && !has_branch_line(#[trigger] bs[k])
            ==> worktree_listing(listing_text(bs, gaps))[k].branch is None,
{
    lemma_listing_text_lines(bs, gaps);
    lemma_one_record_per_block(bs, gaps);
}

/// A blank line at the end of the listing lines changes nothing.
pub proof fn lemma_trailing_blank_line(lines: Seq<Seq<char>>)
    ensures
        worktrees_of_lines(lines.push(seq![])) == worktrees_of_lines(lines),
{
    let blank: Seq<Seq<char>> = seq![seq![]];
    assert(lines.push(seq![]) == lines + blank);
    lemma_scan_append(start_state(), lines, blank);
    assert(blank.drop_first() == Seq::<Seq<char>>::empty());
    assert(blank[0] == Seq::<char>::empty());
    let x = scan_lines(start_state(), lines);
    assert(scan_lines(scan_line(x, blank[0]), blank.drop_first()) == scan_line(x, blank[0]));
    assert(finish(scan_line(x, seq![])) == finish(x));
}

/// A single well-formed block gives exactly one record, whether or not a
/// blank line follows it.
pub proof fn lemma_single_block(b: Seq<Seq<char>>)
    requires
        block_ok(b),
    ensures
        worktrees_of_lines(b).len() == 1,
        worktrees_of_lines(b.push(seq![])).len() == 1,
{
    let bs: Seq<Seq<Seq<char>>> = seq![b];
    let gaps: Seq<nat> = seq![1nat];
    assert(bs.drop_first() == Seq::<Seq<Seq<char>>>::empty());
    assert(join_blocks(bs.drop_first(), gaps.drop_first()) == Seq::<Seq<char>>::empty());
    assert(bs[0] == b);
    assert(blanks(1) == seq![Seq::<char>::empty()]);
    assert(join_blocks(bs, gaps) == b + blanks(1) + Seq::<Seq<char>>::empty());
    assert(join_blocks(bs, gaps) == b.push(seq![]));
    lemma_one_record_per_block(bs, gaps);
    lemma_trailing_blank_line(b);
}

/// The text of a single well-formed block, with no blank line after it,
/// gives exactly one record.
pub proof fn lemma_single_block_text(b: Seq<Seq<char>>)
    requires
        block_ok(b),
        forall|i: int| 0 <= i < b.len() ==> line_clean(#[trigger] b[i]),
    ensures
        worktree_listing(block_text(b)).len() == 1,
{
    lemma_block_text_lines(b, seq![]);
    assert(block_text(b) + Seq::<char>::empty() == block_text(b));
    assert(lines_from(Seq::<char>::empty(), seq![]) == Seq::<Seq<char>>::empty());
    assert(b + Seq::<Seq<char>>::empty() == b);
    lemma_single_block(b);
}

/// For a listing text that ends with a line break, one more line break (a
/// trailing blank line) does not change the records.
pub proof fn lemma_listing_trailing_newline(s: Seq<char>)
    requires
        s.len() == 0 || s.last() == '\n',
    ensures
        worktree_listing(s + seq!['\n']) == worktree_listing(s),
{
    let nl: Seq<char> = seq!['\n'];
    crate::text::lemma_lines_append(s, nl, seq![]);
    assert(nl.drop_first() == Seq::<char>::empty());
    assert(crate::text::lines_from(nl, seq![]) == seq![crate::text::drop_cr(seq![])] + crate::text::lines_from(Seq::<char>::empty(), seq![]));
    assert(crate::text::drop_cr(seq![]) == Seq::<char>::empty());
    assert(lines_of(s + nl) == lines_of(s).push(seq![]));
    lemma_trailing_blank_line(lines_of(s));
}

/// Ending the last line with a line break changes nothing, unless that line
/// ends with a carriage return (which the break would then strip).
proof fn lemma_last_line_break(s: Seq<char>, cur: Seq<char>)
    requires
        s.len() > 0,
        s.last() != '\n',
        s.last() != '\r',
    ensures
        lines_from(s + seq!['\n'], cur) == lines_from(s, cur),
    decreases s.len(),
{
    let nl: Seq<char> = seq!['\n'];
    let t = s + nl;
    assert(t[0] == s[0]);
    assert(t.drop_first() == s.drop_first() + nl);
    let r = s.drop_first();
    if r.len() == 0 {
        assert(s[0] == s.last());
        assert(r + nl == nl);
        assert(nl.drop_first() == Seq::<char>::empty());
        let c = cur.push(s[0]);
        assert(r == Seq::<char>::empty());
        assert(lines_from(t, cur) == lines_from(nl, c));
        assert(lines_from(nl, c) == seq![drop_cr(c)] + lines_from(Seq::<char>::empty(), seq![]));
        assert(drop_cr(c) == c);
        assert(lines_from(s, cur) == lines_from(r, c));
        assert(lines_from(r, c) == seq![c]);
        assert(seq![c] + Seq::<Seq<char>>::empty() == seq![c]);
    } else {
        assert(r.last() == s.last());
        if s[0] == '\n' {
            lemma_last_line_break(r, seq![]);
            assert(lines_from(t, cur) == seq![drop_cr(cur)] + lines_from(r + nl, seq![]));
            assert(lines_from(s, cur) == seq![drop_cr(cur)] + lines_from(r, seq![]));
        } else {
            lemma_last_line_break(r, cur.push(s[0]));
            assert(lines_from(t, cur) == lines_from(r + nl, cur.push(s[0])));
            assert(lines_from(s, cur) == lines_from(r, cur.push(s[0])));
        }
    }
}

/// Parsing does not depend on trailing line breaks: one or two more give
/// the same records, unless the last line ends with a carriage return.
pub proof fn lemma_trailing_line_breaks(s: Seq<char>)
    requires
        s.len() == 0 || s.last() != '\r',
    ensures
        worktree_listing(s + seq!['\n']) == worktree_listing(s),
        worktree_listing(s + seq!['\n', '\n']) == worktree_listing(s),
{
    let nl: Seq<char> = seq!['\n'];
    if s.len() == 0 || s.last() == '\n' {
        lemma_listing_trailing_newline(s);
    } else {
        lemma_last_line_break(s, seq![]);
    }
    let s1 = s + nl;
    assert(s1.last() == '\n');
    lemma_listing_trailing_newline(s1);
    assert(s1 + nl == s + seq!['\n', '\n']);
}

pub open spec fn opt_chars(o: Option<Vec<char>>) -> Option<Seq<char>> {
    match o {
        Some(v) => Some(v@),
        None => None,
    }
}

struct Pending {
    path: Option<Vec<char>>,
    branch: Option<Vec<char>>,
    head: Vec<char>,
    bare: bool,
    locked: bool,
    reason: Option<Vec<char>>,
    prunable: bool,
}

impl View for Pending {
    type V = PendingView;

    closed spec fn view(&self) -> PendingView {
        PendingView {
            path: opt_chars(self.path),
            branch: opt_chars(self.branch),
            head: self.head@,
            bare: self.bare,
            locked: self.locked,
            reason: opt_chars(self.reason),
            prunable: self.prunable,
        }
    }
}

/// The keywords of the worktree listing.
struct Keywords {
    worktree: Vec<char>,
    head: Vec<char>,
    branch: Vec<char>,
    heads: Vec<char>,
    bare: Vec<char>,
    locked: Vec<char>,
    locked_sp: Vec<char>,
    prunable: Vec<char>,
}

impl Keywords {
    spec fn wf(&self) -> bool {
        &&& self.worktree@ == "worktree "@
        &&& self.head@ == "HEAD "@
        &&& self.branch@ == "branch "@
        &&& self.heads@ == "refs/heads/"@
        &&& self.bare@ == "bare"@
        &&& self.locked@ == "locked"@
        &&& self.locked_sp@ == "locked "@
        &&& self.prunable@ == "prunable"@
    }

    fn new() -> (r: Keywords)
        ensures
            r.wf(),
    {
        Keywords {
            worktree: chars_of("worktree "),
            head: chars_of("HEAD "),
            branch: chars_of("branch "),
            heads: chars_of("refs/heads/"),
            bare: chars_of("bare"),
            locked: chars_of("locked"),
            locked_sp: chars_of("locked "),
            prunable: chars_of("prunable"),
        }
    }
}

fn fresh_pending() -> (r: Pending)
    ensures
        r@ == empty_pending(),
{
    Pending {
        path: None,
        branch: None,
        head: Vec::new(),
        bare: false,
        locked: false,
        reason: None,
        prunable: false,
    }
}

fn opt_string(o: &Option<Vec<char>>) -> (r: Option<String>)
    ensures
        crate::git::types::opt_str(r) == opt_chars(*o),
{
    match o {
        Some(v) => Some(string_of(v)),
        None => None,
    }
}

fn close_block(p: &Pending) -> (r: Worktree)
    requires
        p.path is Some,
    ensures
        r@ == record_of(p@),
{
    let path = match &p.path {
        Some(v) => string_of(v),
        None => String::new(),
    };
    Worktree {
        path,
        branch: opt_string(&p.branch),
        head: string_of(&p.head),
        is_bare: p.bare,
        is_locked: p.locked,
        lock_reason: opt_string(&p.reason),
        is_prunable: p.prunable,
    }
}

fn rest_after(line: &Vec<char>, p: &Vec<char>) -> (r: Vec<char>)
    requires
        has_prefix(line@, p@),
    ensures
        r@ == after(line@, p@),
{
    slice_of(line, p.len(), line.len())
}

fn scan_one(p: &mut Pending, done: &mut Vec<Worktree>, line: &Vec<char>, kw: &Keywords)
    requires
        kw.wf(),
    ensures
        ({
            let st = scan_line(ScanState { cur: old(p)@, done: worktree_views(old(done)@) }, line@);
            final(p)@ == st.cur && worktree_views(final(done)@) == st.done
        }),
{
    if line.len() == 0 {
        if p.path.is_some() {
            let rec = close_block(p);
            let ghost before = worktree_views(done@);
            done.push(rec);
            assert(worktree_views(done@) == before.push(rec@));
            *p = fresh_pending();
        }
    } else if starts_with_kw(line, &kw.worktree) {
        p.path = Some(rest_after(line, &kw.worktree));
    } else if starts_with_kw(line, &kw.head) {
        p.head = rest_after(line, &kw.head);
    } else if starts_with_kw(line, &kw.branch) {
        let r = rest_after(line, &kw.branch);
        if starts_with_kw(&r, &kw.heads) {
            p.branch = Some(rest_after(&r, &kw.heads));
        } else {
            p.branch = Some(r);
        }
    } else if same_chars(line, &kw.bare) {
        p.bare = true;
    } else if same_chars(line, &kw.locked) {
        p.locked = true;
    } else if starts_with_kw(line, &kw.locked_sp) {
        p.locked = true;
        p.reason = Some(rest_after(line, &kw.locked_sp));
    } else if same_chars(line, &kw.prunable) {
        p.prunable = true;
    }
}

fn starts_with_kw(s: &Vec<char>, p: &Vec<char>) -> (r: bool)
    ensures
        r == has_prefix(s@, p@),
{
    crate::text::starts_with(s, p)
}

/// Parses the porcelain worktree listing: one record per block, in listing
/// order. Malformed lines are ignored, so this never fails.
pub fn parse_worktree_list(output: &str) -> (r: Result<Vec<Worktree>, OuError>)
    ensures
        r is Ok,
        r matches Ok(v) && worktree_views(v@) == worktree_listing(output@),
{
    let kw = Keywords::new();
    let text = chars_of(output);
    let lines = split_lines(&text);
    let ghost all = views(lines@);
    let n = lines.len();
    let mut p = fresh_pending();
    let mut done: Vec<Worktree> = Vec::new();
    let mut i: usize = 0;
    assert(all.subrange(0, n as int) == all);
    assert(worktree_views(done@) == Seq::<WorktreeView>::empty());
    while i < n
        invariant
            kw.wf(),
            n == lines.len(),
            all == views(lines@),
            all == lines_of(output@),
            i <= n,
            scan_lines(ScanState { cur: p@, done: worktree_views(done@) }, all.subrange(i as int, n as int))
                == scan_lines(start_state(), all),
        decreases n - i,
    {
        assert(all.subrange(i as int, n as int).drop_first() == all.subrange(i + 1, n as int));
        assert(all[i as int] == lines[i as int]@);
        scan_one(&mut p, &mut done, &lines[i], &kw);
        i += 1;
    }
    assert(all.subrange(n as int, n as int) == Seq::<Seq<char>>::empty());
    if p.path.is_some() {
        let rec = close_block(&p);
        let ghost before = worktree_views(done@);
        done.push(rec);
        assert(worktree_views(done@) == before.push(rec@));
    }
    Ok(done)
}

fn branch_from_line(l: &Vec<char>, star: &Vec<char>, gone_mark: &Vec<char>) -> (r: Branch)
    requires
        star@ == "*"@,
        gone_mark@ == "[gone]"@,
    ensures
        r@ == branch_of_line(l@),
{
    let parts = split_fields(l, '\t');
    assert(views(parts@) == fields_of(l@, '\t'));
    assert(parts@.len() >= 1) by {
        crate::text::lemma_fields_nonempty(l@, '\t', seq![]);
    }
    let name = string_of(&parts[0]);
    let upstream = if parts.len() > 1 && parts[1].len() > 0 {
        Some(string_of(&parts[1]))
    } else {
        None
    };
    let is_head = parts.len() > 2 && same_chars(&trimmed(&parts[2]), star);
    let gone = parts.len() > 3 && contains_infix(&parts[3], gone_mark);
    Branch { name, upstream, is_head, gone }
}

/// Parses the branch listing, one line per branch with tab-separated fields:
/// name, upstream, head marker, tracking status. Missing trailing fields
/// leave the upstream absent and the flags false.
pub fn parse_branch_list(output: &str) -> (r: Result<Vec<Branch>, OuError>)
    ensures
        r is Ok,
        r matches Ok(v) && branch_views(v@) == branch_listing(output@),
{
    let star = chars_of("*");
    let gone_mark = chars_of("[gone]");
    let text = chars_of(output);
    let lines = split_lines(&text);
    let ghost all = views(lines@);
    let n = lines.len();
    let mut out: Vec<Branch> = Vec::new();
    let mut i: usize = 0;
    assert(all.subrange(0, n as int) == all);
    assert(branch_views(out@) == Seq::<BranchView>::empty());
    while i < n
        invariant
            star@ == "*"@,
            gone_mark@ == "[gone]"@,
            n == lines.len(),
            all == views(lines@),
            all == lines_of(output@),
            i <= n,
            branch_views(out@) + branches_of_lines(all.subrange(i as int, n as int))
                == branches_of_lines(all),
        decreases n - i,
    {
        let ghost before = branch_views(out@);
        assert(all.subrange(i as int, n as int).drop_first() == all.subrange(i + 1, n as int));
        assert(all[i as int] == lines[i as int]@);
        let l = trimmed(&lines[i]);
        if l.len() > 0 {
            let b = branch_from_line(&l, &star, &gone_mark);
            out.push(b);
            assert(branch_views(out@) == before.push(b@));
            assert(before + (seq![b@] + branches_of_lines(all.subrange(i + 1, n as int)))
                == before.push(b@) + branches_of_lines(all.subrange(i + 1, n as int)));
        }
        i += 1;
    }
    assert(all.subrange(n as int, n as int) == Seq::<Seq<char>>::empty());
    assert(branch_views(out@) + Seq::<BranchView>::empty() == branch_views(out@));
    Ok(out)
}

} // verus!
