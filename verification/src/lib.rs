//! Decision logic of a watch / compile / test harness for single-file programs.
//!
//! The crate holds everything the harness decides: how a table of test cases
//! is read, how program output is compared, how a seed sweep advances and
//! when it stops, and when a file-system event counts as a change. Spawning
//! processes, watching files and printing are left to the caller, which feeds
//! the outcomes back in as plain values.

pub mod artifact;
pub mod blocks;
pub mod config;
pub mod diff;
pub mod discover;
pub mod pattern;
pub mod preview;
pub mod process;
pub mod select;
pub mod stress;
pub mod sweep;
pub mod testcase;
pub mod text;
pub mod watch;
