//! The commands: each composes the parsers, the settings and the interfaces to the outside.

pub mod remove;
pub mod clean;
pub mod add;
pub mod init;
pub mod sync;
pub mod list;
pub mod open;
