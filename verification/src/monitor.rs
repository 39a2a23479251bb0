//! The monitor of a run: what it reports at each poll and how the run moves
//! through its phases.
//!
//! The caller runs the loop: it sleeps for the polling interval, reads the
//! clock and the shared attempt counter, hands both to [`Monitor::on_poll`]
//! and carries out the returned actions. It reports each worker that it has
//! joined with [`Monitor::on_worker_joined`].

use vstd::prelude::*;
use crate::policy::{Phase, TerminationPolicy};

verus! {

/// The status line of one poll.
#[derive(Clone, Copy, Debug, PartialEq, Eq, Structural)]
pub enum Report {
    /// The warm-up window is not over: attempts are not counted yet.
    WarmingUp,
    /// The warm-up window is over.
    Throughput {
        /// Milliseconds since the start of the run.
        elapsed_ms: u64,
        /// Attempts counted so far.
        attempts: u64,
        /// Hundredths of an attempt per second since the end of the warm-up
        /// window, rounded down; `None` at the very end of the window, when
        /// no time has passed since.
        rate_centi: Option<u128>,
    },
}

/// What the caller has to do after a poll.
#[derive(Clone, Copy, Debug, PartialEq, Eq, Structural)]
pub struct PollActions {
    /// The status to log.
    pub report: Report,
    /// The run is over: tell the workers to stop, join them and leave the
    /// polling loop.
    pub stop: bool,
}

/// The state of the monitor between two events.
#[derive(Clone, Copy, Debug, PartialEq, Eq, Structural)]
pub struct Monitor {
    /// The thresholds of the run.
    pub policy: TerminationPolicy,
    /// The phase that the run has reached.
    pub phase: Phase,
    /// The number of workers that were started.
    pub workers: usize,
    /// The number of workers that have been joined.
    pub joined: usize,
}

/// Attempts per second over a window, in hundredths and rounded down:
/// `attempts / (window_ms / 1000)`, times one hundred.
pub open spec fn rate_centi(attempts: u64, window_ms: u64) -> int
    recommends
        window_ms > 0,
{
    (attempts * 100_000) / (window_ms as int)
}

/// The throughput over a window of `window_ms` milliseconds, where there is
/// one: a window of no length has none.
pub open spec fn throughput(attempts: u64, window_ms: u64) -> Option<u128> {
    if window_ms == 0 {
        None
    } else {
        Some(rate_centi(attempts, window_ms) as u128)
    }
}

/// The status at `elapsed_ms` with `attempts` counted so far.
pub open spec fn report_for(policy: TerminationPolicy, elapsed_ms: u64, attempts: u64) -> Report {
    if policy.warmed_up(elapsed_ms) {
        Report::Throughput {
            elapsed_ms,
            attempts,
            rate_centi: throughput(attempts, policy.window_ms(elapsed_ms) as u64),
        }
    } else {
        Report::WarmingUp
    }
}

/// A run that is over becomes `Terminated` once every worker is joined.
pub open spec fn settled(phase: Phase, joined: usize, workers: usize) -> Phase {
    if phase is Terminating && joined == workers {
        Phase::Terminated
    } else {
        phase
    }
}

/// Computes the throughput over a window.
pub fn throughput_centi(attempts: u64, window_ms: u64) -> (rate: Option<u128>)
    ensures
        rate == throughput(attempts, window_ms),
        rate matches Some(r) ==> r == rate_centi(attempts, window_ms),
{
    if window_ms == 0 {
        None
    } else {
        let scaled: u128 = (attempts as u128) * 100_000;
        assert(0 <= rate_centi(attempts, window_ms) <= attempts * 100_000) by (nonlinear_arith)
            requires
                window_ms > 0,
        ;
        Some(scaled / (window_ms as u128))
    }
}

fn later_phase(a: Phase, b: Phase) -> (p: Phase)
    ensures
        p == a.later(b),
{
    match (a, b) {
        (Phase::Terminated, _) => a,
        (_, Phase::Terminated) => b,
        (Phase::Terminating, _) => a,
        (_, Phase::Terminating) => b,
        (Phase::Running, _) => a,
        (_, Phase::Running) => b,
        (Phase::WarmingUp, Phase::WarmingUp) => a,
    }
}

fn settle(phase: Phase, joined: usize, workers: usize) -> (p: Phase)
    ensures
        p == settled(phase, joined, workers),
{
    match phase {
        Phase::Terminating => if joined == workers {
            Phase::Terminated
        } else {
            phase
        },
        _ => phase,
    }
}

impl Monitor {
    /// No more workers are joined than were started, and the run is
    /// `Terminated` only when all of them are.
    pub open spec fn wf(self) -> bool {
        &&& self.joined <= self.workers
        &&& (self.phase is Terminated ==> self.joined == self.workers)
    }

    /// The monitor at the start of a run.
    pub open spec fn initial(policy: TerminationPolicy, workers: usize) -> Monitor {
        Monitor { policy, phase: settled(policy.phase_at(0), 0, workers), workers, joined: 0 }
    }

    /// The monitor after a poll at `elapsed_ms`: the phase moves on to the
    /// one that the clock gives, never back.
    pub open spec fn after_poll(self, elapsed_ms: u64) -> Monitor {
        Monitor {
            phase: settled(
                self.phase.later(self.policy.phase_at(elapsed_ms)),
                self.joined,
                self.workers,
            ),
            ..self
        }
    }

    /// The monitor after one more worker was joined. Once all are joined, a
    /// further report changes nothing.
    pub open spec fn after_join(self) -> Monitor {
        if self.joined < self.workers {
            Monitor {
                joined: (self.joined + 1) as usize,
                phase: settled(self.phase, (self.joined + 1) as usize, self.workers),
                ..self
            }
        } else {
            self
        }
    }

    /// The run is over: its phase is `Terminating` or `Terminated`.
    pub open spec fn over(self) -> bool {
        self.phase is Terminating || self.phase is Terminated
    }

    /// The monitor of a run that starts now with `workers` workers.
    pub fn new(policy: TerminationPolicy, workers: usize) -> (monitor: Monitor)
        ensures
            monitor == Monitor::initial(policy, workers),
            monitor.wf(),
    {
        let phase = settle(policy.phase(0), 0, workers);
        Monitor { policy, phase, workers, joined: 0 }
    }

    /// Tells whether the state is well-formed.
    pub fn is_wf(&self) -> (b: bool)
        ensures
            b == self.wf(),
    {
        let terminated = self.is_terminated();
        self.joined <= self.workers && (!terminated || self.joined == self.workers)
    }

    /// Takes the clock and the shared attempt counter, moves the phase on
    /// and says what to log and whether the run is over.
    pub fn on_poll(&mut self, elapsed_ms: u64, attempt_count: u64) -> (actions: PollActions)
        requires
            old(self).wf(),
        ensures
            *final(self) == old(self).after_poll(elapsed_ms),
            actions.report == report_for(old(self).policy, elapsed_ms, attempt_count),
            actions.stop == final(self).over(),
            final(self).wf(),
            final(self).phase.rank() >= old(self).phase.rank(),
            old(self).policy.expired(elapsed_ms) ==> actions.stop,
    {
        let report = match self.policy.counting_window_ms(elapsed_ms) {
            Some(window_ms) => Report::Throughput {
                elapsed_ms,
                attempts: attempt_count,
                rate_centi: throughput_centi(attempt_count, window_ms),
            },
            None => Report::WarmingUp,
        };
        let by_clock = self.policy.phase(elapsed_ms);
        self.phase = settle(later_phase(self.phase, by_clock), self.joined, self.workers);
        let stop = match self.phase {
            Phase::Terminating => true,
            Phase::Terminated => true,
            _ => false,
        };
        PollActions { report, stop }
    }

    /// Takes note that one more worker has been joined and returns the phase
    /// that the run is in now.
    pub fn on_worker_joined(&mut self) -> (phase: Phase)
        requires
            old(self).wf(),
        ensures
            *final(self) == old(self).after_join(),
            phase == final(self).phase,
            final(self).wf(),
            final(self).phase.rank() >= old(self).phase.rank(),
    {
        if self.joined < self.workers {
            self.joined = self.joined + 1;
            self.phase = settle(self.phase, self.joined, self.workers);
        }
        self.phase
    }

    /// Tells whether every worker has been joined after the end of the run.
    pub fn is_terminated(&self) -> (b: bool)
        ensures
            b == (self.phase is Terminated),
    {
        match self.phase {
            Phase::Terminated => true,
            _ => false,
        }
    }
}

/// A run of `workers` workers is `Terminated` exactly when it has lasted its
/// full duration and all `workers` have been joined: after a poll that finds
/// the run over, joining every worker that is still out brings the monitor
/// there, and not before the last of them.
pub proof fn lemma_terminated_after_all_joined(monitor: Monitor, elapsed_ms: u64, joins: nat)
    requires
        monitor.wf(),
        monitor.policy.expired(elapsed_ms),
        joins <= monitor.workers - monitor.joined,
    ensures
        after_joins(monitor.after_poll(elapsed_ms), joins).joined == monitor.joined + joins,
        after_joins(monitor.after_poll(elapsed_ms), joins).phase is Terminated <==> monitor.joined
            + joins == monitor.workers,
        after_joins(monitor.after_poll(elapsed_ms), joins).over(),
        after_joins(monitor.after_poll(elapsed_ms), joins).workers == monitor.workers,
        after_joins(monitor.after_poll(elapsed_ms), joins).wf(),
    decreases joins,
{
    if joins > 0 {
        lemma_terminated_after_all_joined(monitor, elapsed_ms, (joins - 1) as nat);
    }
}

/// The monitor after `joins` workers were joined one after the other.
pub open spec fn after_joins(monitor: Monitor, joins: nat) -> Monitor
    decreases joins,
{
    if joins == 0 {
        monitor
    } else {
        after_joins(monitor, (joins - 1) as nat).after_join()
    }
}

} // verus!
