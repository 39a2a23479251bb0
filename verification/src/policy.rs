//! The elapsed-time rule that drives a run through its phases.
//!
//! Time is the number of whole milliseconds since the run started. The two
//! thresholds are given in seconds; a threshold of `s` seconds is reached
//! once `s * 1000` milliseconds have passed.

use vstd::prelude::*;
use crate::config::RunConfig;

verus! {

/// Where a run stands.
#[derive(Clone, Copy, Debug, PartialEq, Eq, Structural)]
pub enum Phase {
    /// Attempts are made but not counted.
    WarmingUp,
    /// Attempts are made and counted.
    Running,
    /// The run has lasted its full duration; workers leave at their next check.
    Terminating,
    /// Every worker has been joined.
    Terminated,
}

impl Phase {
    /// Position of the phase in the order in which a run goes through them.
    pub open spec fn rank(self) -> nat {
        match self {
            Phase::WarmingUp => 0,
            Phase::Running => 1,
            Phase::Terminating => 2,
            Phase::Terminated => 3,
        }
    }

    /// The later of two phases.
    pub open spec fn later(self, other: Phase) -> Phase {
        if self.rank() >= other.rank() {
            self
        } else {
            other
        }
    }
}

/// The two thresholds of a run, in seconds since its start.
#[derive(Clone, Copy, Debug, PartialEq, Eq, Structural)]
pub struct TerminationPolicy {
    /// Attempts count from this moment on.
    pub warm_up_s: u64,
    /// The run ends at this moment.
    pub total_s: u64,
}

impl TerminationPolicy {
    /// The warm-up window is over at `elapsed_ms`.
    pub open spec fn warmed_up(self, elapsed_ms: u64) -> bool {
        elapsed_ms >= self.warm_up_s * 1000
    }

    /// The run has lasted its full duration at `elapsed_ms`.
    pub open spec fn expired(self, elapsed_ms: u64) -> bool {
        elapsed_ms >= self.total_s * 1000
    }

    /// The phase that the clock alone puts the run in. Expiry is looked at
    /// first, so a run whose duration is over is `Terminating` whatever the
    /// warm-up threshold is.
    pub open spec fn phase_at(self, elapsed_ms: u64) -> Phase {
        if self.expired(elapsed_ms) {
            Phase::Terminating
        } else if self.warmed_up(elapsed_ms) {
            Phase::Running
        } else {
            Phase::WarmingUp
        }
    }

    /// Milliseconds that have passed since the end of the warm-up window.
    pub open spec fn window_ms(self, elapsed_ms: u64) -> int {
        elapsed_ms - self.warm_up_s * 1000
    }

    /// The thresholds of a configuration.
    pub fn of_config(cfg: &RunConfig) -> (policy: TerminationPolicy)
        ensures
            policy == (TerminationPolicy {
                warm_up_s: cfg.warm_up_threshold_s,
                total_s: cfg.total_run_duration_s,
            }),
    {
        TerminationPolicy { warm_up_s: cfg.warm_up_threshold_s, total_s: cfg.total_run_duration_s }
    }

    /// Tells whether the warm-up window is over.
    pub fn is_warmed_up(&self, elapsed_ms: u64) -> (b: bool)
        ensures
            b == self.warmed_up(elapsed_ms),
    {
        elapsed_ms / 1000 >= self.warm_up_s
    }

    /// Tells whether the run has lasted its full duration.
    pub fn is_expired(&self, elapsed_ms: u64) -> (b: bool)
        ensures
            b == self.expired(elapsed_ms),
    {
        elapsed_ms / 1000 >= self.total_s
    }

    /// The phase that the clock alone puts the run in.
    pub fn phase(&self, elapsed_ms: u64) -> (p: Phase)
        ensures
            p == self.phase_at(elapsed_ms),
    {
        if self.is_expired(elapsed_ms) {
            Phase::Terminating
        } else if self.is_warmed_up(elapsed_ms) {
            Phase::Running
        } else {
            Phase::WarmingUp
        }
    }

    /// The time over which attempts have been counted: `None` inside the
    /// warm-up window, the milliseconds since its end after it.
    pub fn counting_window_ms(&self, elapsed_ms: u64) -> (w: Option<u64>)
        ensures
            match w {
                Some(ms) => self.warmed_up(elapsed_ms) && ms == self.window_ms(elapsed_ms),
                None => !self.warmed_up(elapsed_ms),
            },
    {
        if self.is_warmed_up(elapsed_ms) {
            let whole: u64 = elapsed_ms / 1000 - self.warm_up_s;
            let part: u64 = elapsed_ms % 1000;
            Some(whole * 1000 + part)
        } else {
            None
        }
    }
}

/// The phase given by the clock never goes back: later in time means the
/// same phase or a later one.
pub proof fn lemma_phase_never_regresses(policy: TerminationPolicy, earlier_ms: u64, later_ms: u64)
    requires
        earlier_ms <= later_ms,
    ensures
        policy.phase_at(earlier_ms).rank() <= policy.phase_at(later_ms).rank(),
        policy.phase_at(later_ms) !is Terminated,
{
}

/// With a warm-up window no longer than the run, the three clock-driven
/// phases split time into three consecutive ranges.
pub proof fn lemma_phase_ranges(policy: TerminationPolicy, elapsed_ms: u64)
    requires
        policy.warm_up_s <= policy.total_s,
    ensures
        policy.phase_at(elapsed_ms) is WarmingUp <==> elapsed_ms < policy.warm_up_s * 1000,
        policy.phase_at(elapsed_ms) is Running <==> policy.warm_up_s * 1000 <= elapsed_ms
            < policy.total_s * 1000,
        policy.phase_at(elapsed_ms) is Terminating <==> policy.total_s * 1000 <= elapsed_ms,
{
}

} // verus!
