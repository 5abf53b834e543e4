use ou::hooks::HookContext;

#[test]
fn test_render_basic() {
    let ctx = HookContext::new()
        .set("worktree_path", "/repo/.git/ou-worktrees/feat-login")
        .set("branch_name", "feat/login");
    assert_eq!(ctx.render("echo {worktree_path}"), "echo /repo/.git/ou-worktrees/feat-login");
    assert_eq!(ctx.render("git checkout {branch_name}"), "git checkout feat/login");
}

#[test]
fn test_render_multiple_vars_in_one_template() {
    let ctx = HookContext::new().set("pane_id", "42").set("worktree_path", "/wt");
    assert_eq!(
        ctx.render("wezterm cli split-pane --pane-id {pane_id} --cwd {worktree_path}"),
        "wezterm cli split-pane --pane-id 42 --cwd /wt"
    );
}

#[test]
fn test_render_no_vars() {
    let ctx = HookContext::new();
    assert_eq!(ctx.render("echo hello"), "echo hello");
}

#[test]
fn test_render_unknown_var_left_as_is() {
    let ctx = HookContext::new().set("a", "1");
    assert_eq!(ctx.render("{a} {b}"), "1 {b}");
}

#[test]
fn render_set_twice_keeps_last_value() {
    let ctx = HookContext::new().set("a", "1").set("a", "2");
    assert_eq!(ctx.render("{a}{a}"), "22");
}

#[test]
fn render_repeated_and_adjacent_placeholders() {
    let ctx = HookContext::new().set("x", "ab");
    assert_eq!(ctx.render("{x}{x}-{{x}}"), "abab-{ab}");
}
