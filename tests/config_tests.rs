use std::path::PathBuf;

use ou::config::{Config, WeztermConfig};

fn base_config() -> Config {
    Config {
        worktree_destination_base_dir: Some("base-dir".to_string()),
        default_source: Some("develop".to_string()),
        symlinks: vec![".env".to_string()],
        extra_symlinks: vec!["extra1".to_string()],
        init_submodules: false,
        submodule_reference: false,
        wezterm: Some(WeztermConfig {
            auto_open: true,
            tab_title_template: Some("base-tmpl".to_string()),
        }),
    }
}

#[test]
fn test_merge_none_does_not_override() {
    let base = base_config();
    let local = Config::default();
    let merged = base.merge(local);
    assert_eq!(merged.worktree_destination_base_dir, Some("base-dir".to_string()));
    assert_eq!(merged.default_source, Some("develop".to_string()));
}

#[test]
fn test_merge_some_overrides() {
    let base = base_config();
    let local = Config {
        worktree_destination_base_dir: Some("local-dir".to_string()),
        default_source: Some("main".to_string()),
        ..Config::default()
    };
    let merged = base.merge(local);
    assert_eq!(merged.worktree_destination_base_dir, Some("local-dir".to_string()));
    assert_eq!(merged.default_source, Some("main".to_string()));
}

#[test]
fn test_merge_symlinks_replacement() {
    let base = base_config();
    let local = Config {
        symlinks: vec![".envrc".to_string(), ".tool-versions".to_string()],
        ..Config::default()
    };
    let merged = base.merge(local);
    assert_eq!(merged.symlinks, vec![".envrc".to_string(), ".tool-versions".to_string()]);
}

#[test]
fn test_merge_empty_symlinks_no_override() {
    let base = base_config();
    let local = Config { symlinks: vec![], ..Config::default() };
    let merged = base.merge(local);
    assert_eq!(merged.symlinks, vec![".env".to_string()]);
}

#[test]
fn test_merge_extra_symlinks_dedup() {
    let base = base_config();
    let local = Config {
        extra_symlinks: vec!["extra1".to_string(), "extra2".to_string()],
        ..Config::default()
    };
    let merged = base.merge(local);
    assert_eq!(merged.extra_symlinks, vec!["extra1".to_string(), "extra2".to_string()]);
}

#[test]
fn test_merge_booleans_or_only() {
    let base = Config { init_submodules: false, submodule_reference: false, ..Config::default() };
    let local = Config { init_submodules: true, submodule_reference: true, ..Config::default() };
    let merged = base.merge(local);
    assert!(merged.init_submodules);
    assert!(merged.submodule_reference);

    let base2 = Config { init_submodules: true, submodule_reference: true, ..Config::default() };
    let local2 = Config { init_submodules: false, submodule_reference: false, ..Config::default() };
    let merged2 = base2.merge(local2);
    assert!(merged2.init_submodules);
    assert!(merged2.submodule_reference);
}

#[test]
fn test_merge_wezterm_override() {
    let base = base_config();
    let local = Config {
        wezterm: Some(WeztermConfig {
            auto_open: false,
            tab_title_template: Some("local-tmpl".to_string()),
        }),
        ..Config::default()
    };
    let merged = base.merge(local);
    let wez = merged.wezterm.unwrap();
    assert!(!wez.auto_open);
    assert_eq!(wez.tab_title_template, Some("local-tmpl".to_string()));
}

#[test]
fn test_all_symlinks_dedup() {
    let cfg = Config {
        symlinks: vec![".env".to_string(), ".envrc".to_string()],
        extra_symlinks: vec![".env".to_string(), "Makefile".to_string()],
        ..Config::default()
    };
    let all = cfg.all_symlinks();
    assert_eq!(all, vec![".env".to_string(), ".envrc".to_string(), "Makefile".to_string()]);
}

#[test]
fn test_worktree_base_dir_absolute() {
    let cfg = Config {
        worktree_destination_base_dir: Some("/absolute/path".to_string()),
        ..Config::default()
    };
    let result = cfg.worktree_base_dir("/repo/root", "/repo/root/.git");
    assert_eq!(PathBuf::from(result), PathBuf::from("/absolute/path"));
}

#[test]
fn test_worktree_base_dir_relative() {
    let cfg = Config {
        worktree_destination_base_dir: Some("../worktrees".to_string()),
        ..Config::default()
    };
    let result = cfg.worktree_base_dir("/repo/root", "/repo/root/.git");
    assert_eq!(PathBuf::from(result), PathBuf::from("/repo/root/../worktrees"));
}

#[test]
fn test_worktree_base_dir_none() {
    let cfg = Config::default();
    let result = cfg.worktree_base_dir("/home/user/myrepo", "/home/user/myrepo/.git");
    assert_eq!(PathBuf::from(result), PathBuf::from("/home/user/myrepo/.git/ou-worktrees"));
}

#[test]
fn test_default_source_branch() {
    let cfg = Config::default();
    assert_eq!(cfg.default_source_branch(), "main");

    let cfg2 = Config { default_source: Some("develop".to_string()), ..Config::default() };
    assert_eq!(cfg2.default_source_branch(), "develop");
}

#[test]
fn test_default_toml_roundtrip() {
    let toml_str = Config::default_toml();
    let parsed: Result<toml::Table, _> = toml::from_str(&toml_str);
    assert!(parsed.is_ok(), "default_toml() should be valid TOML");
}

#[test]
fn merge_with_default_override_keeps_every_field() {
    let merged = base_config().merge(Config::default());
    let base = base_config();
    assert_eq!(merged.worktree_destination_base_dir, base.worktree_destination_base_dir);
    assert_eq!(merged.default_source, base.default_source);
    assert_eq!(merged.symlinks, base.symlinks);
    assert_eq!(merged.extra_symlinks, base.extra_symlinks);
    assert_eq!(merged.init_submodules, base.init_submodules);
    assert_eq!(merged.submodule_reference, base.submodule_reference);
    let (a, b) = (merged.wezterm.unwrap(), base.wezterm.unwrap());
    assert_eq!(a.auto_open, b.auto_open);
    assert_eq!(a.tab_title_template, b.tab_title_template);
}

#[test]
fn merge_flags_stay_on_across_merges() {
    let once = Config::default().merge(Config { init_submodules: true, ..Config::default() });
    let twice = once.merge(Config { init_submodules: false, ..Config::default() });
    assert!(twice.init_submodules);
    assert!(!twice.submodule_reference);
}

#[test]
fn merge_extra_symlinks_dedups_within_override() {
    let base = Config { extra_symlinks: vec!["a".to_string()], ..Config::default() };
    let local = Config {
        extra_symlinks: vec!["b".to_string(), "a".to_string(), "b".to_string(), "c".to_string()],
        ..Config::default()
    };
    let merged = base.merge(local);
    assert_eq!(merged.extra_symlinks, vec!["a", "b", "c"]);
}

#[test]
fn all_symlinks_keeps_first_seen_order() {
    let cfg = Config {
        symlinks: vec!["x".to_string(), "y".to_string()],
        extra_symlinks: vec!["z".to_string(), "y".to_string(), "x".to_string(), "z".to_string(), "w".to_string()],
        ..Config::default()
    };
    assert_eq!(cfg.all_symlinks(), vec!["x", "y", "z", "w"]);
    let empty = Config::default();
    assert!(empty.all_symlinks().is_empty());
}

#[test]
fn worktree_base_dir_joins_without_double_separator() {
    let cfg = Config { worktree_destination_base_dir: Some("wt".to_string()), ..Config::default() };
    assert_eq!(cfg.worktree_base_dir("/repo/", "/repo/.git"), "/repo/wt");
    let none = Config::default();
    assert_eq!(none.worktree_base_dir("/repo", "/repo/.git/"), "/repo/.git/ou-worktrees");
}

#[test]
fn default_toml_names_main_as_source() {
    let t = Config::default_toml();
    assert!(t.starts_with("default_source = \"main\"\n"));
    assert!(t.contains("tab_title_template = \"{name}\""));
}
