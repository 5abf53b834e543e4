//! The interface through which commands reach the version-control executable.

use vstd::prelude::*;

use crate::error::OuError;
use crate::git::types::CommandOutput;

verus! {

/// Runs the version-control executable with the given arguments and reports
/// what it printed and its exit status. Implemented by the application (a
/// real process) and by tests (canned answers).
pub trait GitExecutor {
    fn run(&self, args: &Vec<String>) -> Result<CommandOutput, OuError>;
}

} // verus!
