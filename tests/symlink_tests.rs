use std::cell::RefCell;
use std::collections::{BTreeMap, BTreeSet};

use ou::fs::{select_matches, FileSystem};
use ou::symlink::{create_symlinks, new_links, plan_pattern, LinkPlan};

struct MockFileSystem {
    files: RefCell<BTreeMap<String, String>>,
    dirs: RefCell<BTreeSet<String>>,
    symlinks: RefCell<Vec<(String, String)>>,
}

impl MockFileSystem {
    fn new() -> Self {
        MockFileSystem {
            files: RefCell::new(BTreeMap::new()),
            dirs: RefCell::new(BTreeSet::new()),
            symlinks: RefCell::new(Vec::new()),
        }
    }

    fn with_dir(self, path: &str) -> Self {
        self.dirs.borrow_mut().insert(path.to_string());
        self
    }

    fn with_file(self, path: &str, content: &str) -> Self {
        self.files.borrow_mut().insert(path.to_string(), content.to_string());
        self
    }
}

impl FileSystem for MockFileSystem {
    fn symlink(&self, source: &str, link: &str) -> Result<(), String> {
        if self.path_exists(link) {
            return Err("file exists".to_string());
        }
        self.symlinks.borrow_mut().push((source.to_string(), link.to_string()));
        Ok(())
    }
    fn path_exists(&self, path: &str) -> bool {
        if self.files.borrow().contains_key(path) || self.dirs.borrow().contains(path) {
            return true;
        }
        // A path below a linked directory exists when its source does.
        let links = self.symlinks.borrow().clone();
        links.iter().any(|(src, link)| {
            path.strip_prefix(&format!("{link}/")).is_some_and(|rest| self.path_exists(&format!("{src}/{rest}")))
        })
    }
    fn is_dir(&self, path: &str) -> bool {
        self.dirs.borrow().contains(path)
    }
    fn is_symlink(&self, path: &str) -> bool {
        self.symlinks.borrow().iter().any(|(_, l)| l == path)
    }
    fn read_to_string(&self, path: &str) -> Result<String, String> {
        self.files.borrow().get(path).cloned().ok_or_else(|| "not found".to_string())
    }
    fn write(&self, path: &str, contents: &str) -> Result<(), String> {
        self.files.borrow_mut().insert(path.to_string(), contents.to_string());
        Ok(())
    }
    fn mkdir_all(&self, path: &str) -> Result<(), String> {
        self.dirs.borrow_mut().insert(path.to_string());
        Ok(())
    }
    fn remove_dir_all(&self, path: &str) -> Result<(), String> {
        self.dirs.borrow_mut().remove(path);
        Ok(())
    }
    fn remove_file(&self, path: &str) -> Result<(), String> {
        self.files.borrow_mut().remove(path);
        Ok(())
    }
    fn glob(&self, dir: &str, pattern: &str) -> Result<Vec<String>, String> {
        let prefix = format!("{}/", dir.trim_end_matches('/'));
        let rels: Vec<String> = self
            .files
            .borrow()
            .keys()
            .filter_map(|p| p.strip_prefix(&prefix).map(|r| r.to_string()))
            .collect();
        let hits = select_matches(pattern, &rels).map_err(|e| e.message())?;
        Ok(hits.into_iter().map(|r| format!("{prefix}{r}")).collect())
    }
    fn canonicalize(&self, path: &str) -> Result<String, String> {
        Ok(path.to_string())
    }
}

#[test]
fn test_create_symlinks_literal_file() {
    let fs = MockFileSystem::new().with_file("/src/.env", "SECRET=123");
    let created = create_symlinks(&fs, "/src", "/target", &vec![".env".to_string()]).unwrap();
    assert_eq!(created, vec![".env".to_string()]);
}

#[test]
fn test_create_symlinks_target_exists_skip() {
    let fs = MockFileSystem::new()
        .with_file("/src/.env", "SECRET=123")
        .with_file("/target/.env", "ALREADY_EXISTS");
    let _created = create_symlinks(&fs, "/src", "/target", &vec![".env".to_string()]).unwrap();
    assert!(!fs.is_symlink("/target/.env"));
}

#[test]
fn test_create_symlinks_no_match() {
    let fs = MockFileSystem::new();
    let created = create_symlinks(&fs, "/src", "/target", &vec!["nonexistent".to_string()]).unwrap();
    assert!(created.is_empty());
}

#[test]
fn test_create_symlinks_creates_parent_dirs() {
    let fs = MockFileSystem::new().with_file("/src/sub/file.txt", "content");
    let created = create_symlinks(&fs, "/src", "/target", &vec!["sub/file.txt".to_string()]).unwrap();
    assert_eq!(created, vec!["sub/file.txt".to_string()]);
    assert!(fs.dirs.borrow().contains("/target/sub"));
    assert_eq!(
        fs.symlinks.borrow()[0],
        ("/src/sub/file.txt".to_string(), "/target/sub/file.txt".to_string())
    );
}

#[test]
fn existing_target_is_not_reported() {
    let fs = MockFileSystem::new()
        .with_file("/src/.env", "A")
        .with_file("/target/.env", "B");
    let created = create_symlinks(&fs, "/src", "/target", &vec![".env".to_string()]).unwrap();
    assert!(created.is_empty());
}

#[test]
fn second_sync_creates_nothing() {
    let fs = MockFileSystem::new()
        .with_file("/src/.env", "A")
        .with_file("/src/conf/a.toml", "x")
        .with_file("/src/conf/b.toml", "y");
    let patterns = vec![".env".to_string(), "conf/*.toml".to_string(), ".env".to_string()];
    let first = create_symlinks(&fs, "/src", "/target", &patterns).unwrap();
    assert_eq!(first, vec![".env", "conf/a.toml", "conf/b.toml"]);
    let second = create_symlinks(&fs, "/src", "/target", &patterns).unwrap();
    assert!(second.is_empty());
    assert_eq!(fs.symlinks.borrow().len(), 3);
}

#[test]
fn glob_selects_by_pattern() {
    let cands = vec!["a.rs".to_string(), "b.txt".to_string(), "sub/c.rs".to_string()];
    assert_eq!(select_matches("*.txt", &cands).unwrap(), vec!["b.txt"]);
    assert_eq!(select_matches("**/*.rs", &cands).unwrap(), vec!["a.rs", "sub/c.rs"]);
    assert!(select_matches("a[", &cands).is_err());
}

#[test]
fn plan_pattern_literal_and_outside_match() {
    let plan = plan_pattern("/s", "/t", ".env", &vec![], true).unwrap();
    assert_eq!(plan.len(), 1);
    assert_eq!(plan[0].source, "/s/.env");
    assert_eq!(plan[0].target, "/t/.env");
    assert!(plan_pattern("/s", "/t", ".env", &vec![], false).unwrap().is_empty());
    let err = plan_pattern("/s", "/t", "*", &vec!["/other/x".to_string()], false);
    assert!(matches!(err, Err(ou::error::OuError::Symlink(_))));
    let nested = plan_pattern("/s", "/t", "*", &vec!["/s/a/b".to_string()], false).unwrap();
    assert_eq!(nested[0].relative, "a/b");
    assert_eq!(nested[0].target, "/t/a/b");
}

#[test]
fn new_links_picks_first_absent_target() {
    let link = |t: &str| LinkPlan { source: "s".to_string(), target: t.to_string(), relative: t.to_string() };
    let links = vec![link("/a"), link("/b"), link("/a"), link("/c")];
    assert_eq!(new_links(&links, &vec![false, true, false, false]), vec![true, false, false, true]);
}

#[test]
fn deeply_nested_glob_is_rejected_not_fatal() {
    let pattern = format!("{}{}", "{a,".repeat(300), "}".repeat(300));
    assert!(select_matches(&pattern, &vec!["a".to_string()]).is_err());
}

#[test]
fn link_inside_linked_directory_is_skipped() {
    let fs = MockFileSystem::new().with_dir("/src/config").with_file("/src/config/x.env", "X");
    let patterns = vec!["config".to_string(), "config/x.env".to_string()];
    let created = create_symlinks(&fs, "/src", "/t", &patterns).unwrap();
    assert_eq!(created, vec!["config"]);
    assert_eq!(fs.symlinks.borrow().len(), 1);
}

#[test]
fn invalid_pattern_fails_without_candidates() {
    assert!(select_matches("a[", &vec![]).is_err());
    assert_eq!(select_matches("*.rs", &vec![]).unwrap(), Vec::<String>::new());
    let long = "a".repeat(2000);
    assert!(select_matches(&long, &vec![]).is_err());
}
