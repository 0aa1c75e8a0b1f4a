//! Discovers every process transitively spawned by a monitored root command
//! and dispatches an independent sampling capture for each one, at most once.
//!
//! The crate provides the verified core of that tool: a process-table
//! snapshot model, the ancestry resolver that decides tree membership, the
//! monitor state machine that guarantees at-most-once dispatch, and the
//! construction of the capture tool's output paths and arguments.
pub mod ancestry;
pub mod dispatch;
pub mod monitor;
pub mod snapshot;
