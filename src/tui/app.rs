//! Dashboard state: the worktrees shown, the selection, the status line.

use vstd::prelude::*;
use vstd::string::StringExecFns;

use crate::error::{message_spec, OuError};
use crate::git::executor::GitExecutor;
use crate::git::parse::worktree_listing;
use crate::git::runner::GitRunner;
use crate::git::types::{Worktree, worktree_views};

verus! {

/// A key press, as the dashboard reads it.
#[derive(Debug, Clone, Copy, PartialEq, Eq, Structural)]
pub enum DashboardKey {
    Quit,
    Up,
    Down,
    Refresh,
    Delete,
    Enter,
    Other,
}

/// What the event loop does after a key.
#[derive(Debug, Clone, Copy, PartialEq, Eq, Structural)]
pub enum KeyOutcome {
    /// Leave the dashboard.
    Quit,
    /// Draw again and wait for the next key.
    Continue,
    /// Open the selected worktree in a terminal tab.
    Open,
}

pub struct App {
    pub worktrees: Vec<Worktree>,
    pub selected: usize,
    pub should_quit: bool,
    pub status_message: Option<String>,
}

impl App {
    pub fn new() -> (r: Self)
        ensures
            r.worktrees@.len() == 0,
            r.selected == 0,
            !r.should_quit,
            r.status_message is None,
    {
        App { worktrees: Vec::new(), selected: 0, should_quit: false, status_message: None }
    }

    /// Reloads the worktrees; the selection is pulled back onto the list
    /// when the list shrank below it. On failure the list is kept and the
    /// status line tells the error.
    pub fn refresh<E: GitExecutor>(&mut self, git: &GitRunner<E>)
        ensures
            final(self).should_quit == old(self).should_quit,
            final(self).status_message is None ==> (exists|s: Seq<char>|
                worktree_views(final(self).worktrees@) == worktree_listing(s)) && (
            if old(self).selected >= final(self).worktrees@.len() && final(self).worktrees@.len() > 0 {
                final(self).selected == final(self).worktrees@.len() - 1
            } else {
                final(self).selected == old(self).selected
            }),
            final(self).status_message is Some ==> final(self).worktrees == old(self).worktrees
                && final(self).selected == old(self).selected,
            final(self).status_message matches Some(m) ==> exists|e: OuError| m@ == "Error: "@ + #[trigger] message_spec(e),
    {
        match git.worktree_list() {
            Ok(wts) => {
                self.worktrees = wts;
                if self.selected >= self.worktrees.len() && self.worktrees.len() > 0 {
                    self.selected = self.worktrees.len() - 1;
                }
                self.status_message = None;
            },
            Err(e) => {
                self.status_message = Some(String::from_str("Error: ").concat(e.message().as_str()));
            },
        }
    }

    /// Moves the selection down, wrapping to the top.
    pub fn next(&mut self)
        ensures
            final(self).worktrees == old(self).worktrees,
            final(self).status_message == old(self).status_message,
            final(self).should_quit == old(self).should_quit,
            old(self).worktrees@.len() > 0 ==> final(self).selected as int == (old(self).selected as int + 1)
                % (old(self).worktrees@.len() as int),
            old(self).worktrees@.len() == 0 ==> final(self).selected == old(self).selected,
    {
        let n = self.worktrees.len();
        if n > 0 {
            let s = self.selected;
            proof {
                vstd::arithmetic::div_mod::lemma_add_mod_noop(s as int, 1, n as int);
                if n > 1 {
                    vstd::arithmetic::div_mod::lemma_small_mod(1, n as nat);
                }
            }
            let m = s % n;
            if n == 1 {
                self.selected = 0;
            } else {
                self.selected = (m + 1) % n;
            }
        }
    }

    /// Moves the selection up, wrapping to the bottom.
    pub fn previous(&mut self)
        ensures
            final(self).worktrees == old(self).worktrees,
            final(self).status_message == old(self).status_message,
            final(self).should_quit == old(self).should_quit,
            old(self).worktrees@.len() > 0 ==> final(self).selected == if old(self).selected == 0 {
                (old(self).worktrees@.len() - 1) as usize
            } else {
                (old(self).selected - 1) as usize
            },
            old(self).worktrees@.len() == 0 ==> final(self).selected == old(self).selected,
    {
        if self.worktrees.len() > 0 {
            if self.selected == 0 {
                self.selected = self.worktrees.len() - 1;
            } else {
                self.selected = self.selected - 1;
            }
        }
    }

    pub fn selected_worktree(&self) -> (r: Option<&Worktree>)
        ensures
            self.selected < self.worktrees@.len() ==> r == Some(&self.worktrees@[self.selected as int]),
            self.selected >= self.worktrees@.len() ==> r is None,
    {
        if self.selected < self.worktrees.len() {
            Some(&self.worktrees[self.selected])
        } else {
            None
        }
    }

    /// Applies a key: moves the selection, reloads, or removes here, and
    /// tells the event loop whether to quit or to open the selection.
    pub fn on_key<E: GitExecutor>(&mut self, git: &GitRunner<E>, key: DashboardKey) -> (r: KeyOutcome)
        ensures
            (r == KeyOutcome::Quit) == (key == DashboardKey::Quit),
            (r == KeyOutcome::Open) == (key == DashboardKey::Enter && old(self).selected < old(self).worktrees@.len()),
            key == DashboardKey::Down && old(self).worktrees@.len() > 0 ==> final(self).selected as int
                == (old(self).selected as int + 1) % (old(self).worktrees@.len() as int),
            key == DashboardKey::Up && old(self).worktrees@.len() > 0 ==> final(self).selected == if old(self).selected == 0 {
                (old(self).worktrees@.len() - 1) as usize
            } else {
                (old(self).selected - 1) as usize
            },
            key == DashboardKey::Quit || key == DashboardKey::Enter || key == DashboardKey::Other
                ==> *final(self) == *old(self),
    {
        match key {
            DashboardKey::Quit => KeyOutcome::Quit,
            DashboardKey::Down => {
                self.next();
                KeyOutcome::Continue
            },
            DashboardKey::Up => {
                self.previous();
                KeyOutcome::Continue
            },
            DashboardKey::Refresh => {
                self.refresh(git);
                KeyOutcome::Continue
            },
            DashboardKey::Delete => {
                self.remove_selected(git);
                KeyOutcome::Continue
            },
            DashboardKey::Enter => {
                if self.selected < self.worktrees.len() {
                    KeyOutcome::Open
                } else {
                    KeyOutcome::Continue
                }
            },
            DashboardKey::Other => KeyOutcome::Continue,
        }
    }

    /// Removes the selected worktree (unforced) and its branch, then
    /// reloads. A bare worktree is refused.
    pub fn remove_selected<E: GitExecutor>(&mut self, git: &GitRunner<E>)
        ensures
            old(self).selected < old(self).worktrees@.len() && old(self).worktrees@[old(self).selected as int].is_bare
                ==> final(self).worktrees == old(self).worktrees && final(self).selected == old(self).selected
                && (final(self).status_message matches Some(m)
                && m@ == "Cannot remove bare worktree"@),
            old(self).selected >= old(self).worktrees@.len() ==> *final(self) == *old(self),
    {
        if self.selected >= self.worktrees.len() {
            return;
        }
        let idx = self.selected;
        if self.worktrees[idx].is_bare {
            self.status_message = Some(String::from_str("Cannot remove bare worktree"));
            return;
        }
        let branch_name = match &self.worktrees[idx].branch {
            Some(b) => b.clone(),
            None => String::new(),
        };
        let path = self.worktrees[idx].path.clone();
        match git.worktree_remove(path.as_str(), false) {
            Ok(()) => {
                let _ = git.branch_delete(branch_name.as_str(), false);
                self.status_message = Some(String::from_str("Removed: ").concat(branch_name.as_str()));
                self.refresh(git);
            },
            Err(e) => {
                self.status_message = Some(String::from_str("Failed to remove: ").concat(e.message().as_str()));
            },
        }
    }
}

} // verus!
