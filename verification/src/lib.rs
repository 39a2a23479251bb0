//! Orchestration core of a fixed-duration puzzle-proving client.
//!
//! The crate holds the rules of one run: which parallelism settings are
//! valid, how worker slots are laid out over thread pools, what a worker does
//! with the outcome of each attempt, when the run ends, and how the result
//! log is framed on disk. File and network access, the proving algorithm and
//! the clock stay with the caller, which feeds plain values in and carries
//! the returned actions out.

pub mod consts;
pub mod config;
pub mod policy;
pub mod solution;
pub mod worker;
pub mod ledger;
pub mod monitor;
pub mod framing;
pub mod store;
pub mod pool;
pub mod client_info;
