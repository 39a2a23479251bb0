//! Fixed parameters of a run.

use vstd::prelude::*;

verus! {

/// Stack size given to every worker thread, in bytes.
pub const THREAD_STACK_SIZE: usize = 8 * 1024 * 1024;

/// Minimum score a solution must reach to be recorded.
pub const SHARE_TARGET: u64 = 30000;

/// Suffix of the result log's file name; the epoch number is put in front.
pub const RESULTS_FILE_TEMPLATE: &'static str = "z-games_results.log";

/// Seconds after the start of a run during which attempts are not counted.
pub const WARM_UP_SECS: u64 = 60;

/// Seconds after which a run ends.
pub const RUN_DURATION_SECS: u64 = 600;

/// Seconds between two polls of the monitor.
pub const POLL_INTERVAL_SECS: u64 = 5;

/// Number of failed appends in a row after which a worker gives up the run.
pub const MAX_CONSECUTIVE_APPEND_FAILURES: u32 = 3;

} // verus!
