//! The version-control side: the records it reports, the parsers of its
//! listings, and the runner that issues its commands through an interface.

pub mod command;
pub mod executor;
pub mod parse;
pub mod runner;
pub mod types;
