use std::path::PathBuf;

use ou::git::parse::{parse_branch_list, parse_worktree_list};

#[test]
fn test_parse_worktree_list() {
    let input = "\
worktree /home/user/project
HEAD abc1234567890
branch refs/heads/main

worktree /home/user/project-feat
HEAD def4567890123
branch refs/heads/feat/test
locked reason for lock

";
    let wts = parse_worktree_list(input).unwrap();
    assert_eq!(wts.len(), 2);
    assert_eq!(PathBuf::from(&wts[0].path), PathBuf::from("/home/user/project"));
    assert_eq!(wts[0].branch.as_deref(), Some("main"));
    assert!(!wts[0].is_locked);

    assert_eq!(wts[1].branch.as_deref(), Some("feat/test"));
    assert!(wts[1].is_locked);
    assert_eq!(wts[1].lock_reason.as_deref(), Some("reason for lock"));
}

#[test]
fn test_parse_branch_list() {
    let input = "main\torigin/main\t*\t\nfeat/test\torigin/feat/test\t \t[gone]\n";
    let branches = parse_branch_list(input).unwrap();
    assert_eq!(branches.len(), 2);
    assert_eq!(branches[0].name, "main");
    assert!(branches[0].is_head);
    assert!(!branches[0].gone);

    assert_eq!(branches[1].name, "feat/test");
    assert!(!branches[1].is_head);
    assert!(branches[1].gone);
}

#[test]
fn worktree_blocks_counted_and_detached_has_no_branch() {
    let input = "worktree /a\nHEAD 111\nbranch refs/heads/one\n\nworktree /b\nHEAD 222\ndetached\n\nworktree /c\nbare\n\n";
    let wts = parse_worktree_list(input).unwrap();
    assert_eq!(wts.len(), 3);
    assert_eq!(wts[1].branch, None);
    assert_eq!(wts[1].head, "222");
    assert!(wts[2].is_bare);
    assert_eq!(wts[2].branch, None);
    assert_eq!(wts[2].head, "");
}

#[test]
fn worktree_single_block_without_trailing_blank() {
    let wts = parse_worktree_list("worktree /only\nHEAD abc\nbranch refs/heads/x").unwrap();
    assert_eq!(wts.len(), 1);
    assert_eq!(wts[0].path, "/only");
    assert_eq!(wts[0].branch.as_deref(), Some("x"));
    let with_blank = parse_worktree_list("worktree /only\nHEAD abc\nbranch refs/heads/x\n\n").unwrap();
    assert_eq!(with_blank.len(), 1);
    assert_eq!(with_blank[0].path, wts[0].path);
}

#[test]
fn worktree_locked_without_reason_and_prunable() {
    let wts = parse_worktree_list("worktree /p\nlocked\nprunable gitdir file points to non-existent location\nprunable\nfuture-key value\n").unwrap();
    assert_eq!(wts.len(), 1);
    assert!(wts[0].is_locked);
    assert_eq!(wts[0].lock_reason, None);
    assert!(wts[0].is_prunable);
}

#[test]
fn worktree_crlf_lines_and_empty_input() {
    let wts = parse_worktree_list("worktree /w\r\nbranch refs/heads/b\r\n\r\n").unwrap();
    assert_eq!(wts.len(), 1);
    assert_eq!(wts[0].path, "/w");
    assert_eq!(wts[0].branch.as_deref(), Some("b"));
    assert!(parse_worktree_list("").unwrap().is_empty());
    assert!(parse_worktree_list("\n\n").unwrap().is_empty());
}

#[test]
fn worktree_branch_outside_heads_kept_whole() {
    let wts = parse_worktree_list("worktree /w\nbranch refs/remotes/origin/x\n").unwrap();
    assert_eq!(wts[0].branch.as_deref(), Some("refs/remotes/origin/x"));
}

#[test]
fn branch_list_short_lines_degrade() {
    let branches = parse_branch_list("solo\n\n  \nwith-up\torigin/with-up\n").unwrap();
    assert_eq!(branches.len(), 2);
    assert_eq!(branches[0].name, "solo");
    assert_eq!(branches[0].upstream, None);
    assert!(!branches[0].is_head && !branches[0].gone);
    assert_eq!(branches[1].upstream.as_deref(), Some("origin/with-up"));
}

#[test]
fn branch_list_empty_upstream_is_absent() {
    let branches = parse_branch_list("b\t\t*\t[ahead 1]\n").unwrap();
    assert_eq!(branches[0].upstream, None);
    assert!(branches[0].is_head);
    assert!(!branches[0].gone);
}

#[test]
fn worktree_groups_separated_by_several_blank_lines() {
    let input = "worktree /a\nbranch refs/heads/x\n\n\n\nHEAD 2\nworktree /b\n";
    let wts = parse_worktree_list(input).unwrap();
    assert_eq!(wts.len(), 2);
    assert_eq!(wts[1].path, "/b");
    assert_eq!(wts[1].branch, None);
    assert_eq!(parse_worktree_list(&format!("{input}\n\n")).unwrap().len(), 2);
}
