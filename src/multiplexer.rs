//! The interface to a terminal multiplexer.

use vstd::prelude::*;

use crate::error::OuError;

verus! {

/// One tab (pane) of the multiplexer.
#[derive(Debug, Clone)]
pub struct TabInfo {
    pub id: String,
    pub title: String,
    pub cwd: Option<String>,
}

/// Opening and managing terminal tabs. Implemented by the application.
pub trait Multiplexer {
    fn name(&self) -> &'static str;

    fn is_available(&self) -> bool;

    /// Opens a tab in `cwd`; returns the new pane's identifier.
    fn open_tab(&self, cwd: &str, title: Option<&str>) -> Result<String, OuError>;

    fn list_tabs(&self) -> Result<Vec<TabInfo>, OuError>;

    fn activate_tab(&self, tab_id: &str) -> Result<(), OuError>;

    fn close_tab(&self, tab_id: &str) -> Result<(), OuError>;
}

/// The multiplexer to use: the candidate, when it is available.
pub fn detect_multiplexer<M: Multiplexer>(candidate: M) -> (r: Option<M>)
    ensures
        r matches Some(m) ==> m == candidate,
{
    if candidate.is_available() {
        Some(candidate)
    } else {
        None
    }
}

} // verus!
