//! What one worker does with the outcome of each attempt.
//!
//! The caller runs the loop: it samples a nonce, calls the solver, reads the
//! clock and hands the outcome to [`WorkerState::on_attempt`], then carries
//! out the returned actions. The state keeps the worker's own tallies, so
//! that the shared counter can be held against them.

use vstd::prelude::*;
use crate::consts::MAX_CONSECUTIVE_APPEND_FAILURES;
use crate::policy::TerminationPolicy;
use crate::solution::Solution;

verus! {

/// How one call of the solver ended.
#[derive(Clone, Debug, PartialEq, Eq)]
pub enum AttemptOutcome {
    /// The solver returned without a solution.
    NoSolution,
    /// The solver returned a candidate.
    Found(Solution),
    /// The solver failed or panicked; the failure stays with this attempt.
    Failed,
}

/// One attempt as the worker sees it: its outcome and the clock after it.
#[derive(Clone, Debug, PartialEq, Eq)]
pub struct AttemptEvent {
    /// How the attempt ended.
    pub outcome: AttemptOutcome,
    /// Milliseconds since the start of the run, read after the attempt.
    pub elapsed_ms: u64,
}

/// Whether a worker still makes attempts.
#[derive(Clone, Copy, Debug, PartialEq, Eq, Structural)]
pub enum WorkerStatus {
    /// The worker goes on with the next attempt.
    Active,
    /// The worker left its loop because the run has lasted its full duration.
    Finished,
    /// The worker gave up the run after too many failed appends in a row.
    Aborted,
}

/// What the caller has to do after an attempt.
#[derive(Clone, Debug, PartialEq, Eq)]
pub struct StepActions {
    /// The solution to append to the result log, if the attempt gave one
    /// that reaches the target.
    pub append: Option<Solution>,
    /// Add one to the shared attempt counter.
    pub count: bool,
    /// Leave the loop.
    pub stop: bool,
}

/// What follows from the result of an append.
#[derive(Clone, Copy, Debug, PartialEq, Eq, Structural)]
pub enum AppendVerdict {
    /// The worker goes on.
    Continue,
    /// Appends have failed too often in a row: the run is to be shut down.
    Escalate,
}

/// The state of one worker between two attempts.
#[derive(Clone, Copy, Debug, PartialEq, Eq, Structural)]
pub struct WorkerState {
    /// Whether the worker still makes attempts.
    pub status: WorkerStatus,
    /// Attempts made so far.
    pub attempts: u64,
    /// Attempts made after the warm-up window, which count toward throughput.
    pub counted: u64,
    /// Solutions handed over for appending.
    pub submitted: u64,
    /// Attempts in which the solver failed.
    pub failed: u64,
    /// Appends that have failed since the last one that succeeded.
    pub append_failures_in_row: u32,
}

/// The solution that an outcome gives to the log: the candidate, if there is
/// one and its score reaches the target.
pub open spec fn accepted_solution(outcome: AttemptOutcome, acceptance_target: u64) -> Option<
    Solution,
> {
    match outcome {
        AttemptOutcome::Found(solution) => if solution.accepted(acceptance_target) {
            Some(solution)
        } else {
            None
        },
        _ => None,
    }
}

/// The number of events that fall after the warm-up window.
pub open spec fn qualifying(policy: TerminationPolicy, events: Seq<AttemptEvent>) -> nat {
    events.filter(|e: AttemptEvent| policy.warmed_up(e.elapsed_ms)).len()
}

/// The accepted solutions among the events, in the order of the events.
pub open spec fn accepted_among(acceptance_target: u64, events: Seq<AttemptEvent>) -> Seq<
    Solution,
> {
    events.filter_map(|e: AttemptEvent| accepted_solution(e.outcome, acceptance_target))
}

/// No event but the last one falls after the end of the run: the events are
/// those of a worker that left at the first check that found the run over.
pub open spec fn stops_at_expiry(policy: TerminationPolicy, events: Seq<AttemptEvent>) -> bool {
    forall|i: int| 0 <= i < events.len() - 1 ==> !policy.expired(#[trigger] events[i].elapsed_ms)
}

impl WorkerState {
    /// The tallies fit together, and the worker is aborted exactly when the
    /// failed appends in a row have reached the limit.
    pub open spec fn wf(self) -> bool {
        &&& self.counted <= self.attempts
        &&& self.submitted + self.failed <= self.attempts
        &&& self.append_failures_in_row <= MAX_CONSECUTIVE_APPEND_FAILURES
        &&& (self.status is Aborted <==> self.append_failures_in_row
            == MAX_CONSECUTIVE_APPEND_FAILURES)
    }

    /// The state of a worker that has made no attempt yet.
    pub open spec fn initial() -> WorkerState {
        WorkerState {
            status: WorkerStatus::Active,
            attempts: 0,
            counted: 0,
            submitted: 0,
            failed: 0,
            append_failures_in_row: 0,
        }
    }

    /// The actions that an attempt calls for. A worker that has left its
    /// loop appends and counts nothing and is told to stop again.
    pub open spec fn actions_for(
        self,
        policy: TerminationPolicy,
        acceptance_target: u64,
        event: AttemptEvent,
    ) -> StepActions {
        if self.status is Active {
            StepActions {
                append: accepted_solution(event.outcome, acceptance_target),
                count: policy.warmed_up(event.elapsed_ms),
                stop: policy.expired(event.elapsed_ms),
            }
        } else {
            StepActions { append: None, count: false, stop: true }
        }
    }

    /// The state after an attempt. A worker that has left its loop stays as
    /// it is.
    pub open spec fn after_attempt(
        self,
        policy: TerminationPolicy,
        acceptance_target: u64,
        event: AttemptEvent,
    ) -> WorkerState {
        if self.status is Active {
            WorkerState {
                status: if policy.expired(event.elapsed_ms) {
                    WorkerStatus::Finished
                } else {
                    WorkerStatus::Active
                },
                attempts: (self.attempts + 1) as u64,
                counted: if policy.warmed_up(event.elapsed_ms) {
                    (self.counted + 1) as u64
                } else {
                    self.counted
                },
                submitted: if accepted_solution(event.outcome, acceptance_target) is Some {
                    (self.submitted + 1) as u64
                } else {
                    self.submitted
                },
                failed: if event.outcome is Failed {
                    (self.failed + 1) as u64
                } else {
                    self.failed
                },
                append_failures_in_row: self.append_failures_in_row,
            }
        } else {
            self
        }
    }

    /// The state after the result of an append. A success clears the count
    /// of failures in a row; the failure that brings it to the limit aborts
    /// the worker, and an aborted worker stays aborted.
    pub open spec fn after_append(self, succeeded: bool) -> WorkerState {
        if self.status is Aborted {
            self
        } else if succeeded {
            WorkerState { append_failures_in_row: 0, ..self }
        } else if self.append_failures_in_row + 1 >= MAX_CONSECUTIVE_APPEND_FAILURES {
            WorkerState {
                status: WorkerStatus::Aborted,
                append_failures_in_row: MAX_CONSECUTIVE_APPEND_FAILURES,
                ..self
            }
        } else {
            WorkerState {
                append_failures_in_row: (self.append_failures_in_row + 1) as u32,
                ..self
            }
        }
    }

    /// The state after the run was called off from outside: an active worker
    /// has finished; one that had left its loop stays as it is.
    pub open spec fn after_cancel(self) -> WorkerState {
        if self.status is Active {
            WorkerState { status: WorkerStatus::Finished, ..self }
        } else {
            self
        }
    }

    /// The state after a sequence of attempts, taken in order.
    pub open spec fn replay(
        self,
        policy: TerminationPolicy,
        acceptance_target: u64,
        events: Seq<AttemptEvent>,
    ) -> WorkerState
        decreases events.len(),
    {
        if events.len() == 0 {
            self
        } else {
            self.replay(policy, acceptance_target, events.drop_last()).after_attempt(
                policy,
                acceptance_target,
                events.last(),
            )
        }
    }

    /// The solutions handed over for appending during a sequence of
    /// attempts, in the order in which they were handed over.
    pub open spec fn appended(
        self,
        policy: TerminationPolicy,
        acceptance_target: u64,
        events: Seq<AttemptEvent>,
    ) -> Seq<Solution>
        decreases events.len(),
    {
        if events.len() == 0 {
            Seq::empty()
        } else {
            let before = self.appended(policy, acceptance_target, events.drop_last());
            let state = self.replay(policy, acceptance_target, events.drop_last());
            match state.actions_for(policy, acceptance_target, events.last()).append {
                Some(solution) => before.push(solution),
                None => before,
            }
        }
    }

    /// A worker that has made no attempt yet.
    pub fn new() -> (state: WorkerState)
        ensures
            state == WorkerState::initial(),
            state.wf(),
    {
        WorkerState {
            status: WorkerStatus::Active,
            attempts: 0,
            counted: 0,
            submitted: 0,
            failed: 0,
            append_failures_in_row: 0,
        }
    }

    /// Tells whether the state is well-formed.
    pub fn is_wf(&self) -> (b: bool)
        ensures
            b == self.wf(),
    {
        let aborted = match self.status {
            WorkerStatus::Aborted => true,
            _ => false,
        };
        self.counted <= self.attempts && self.submitted <= self.attempts && self.failed
            <= self.attempts - self.submitted && self.append_failures_in_row
            <= MAX_CONSECUTIVE_APPEND_FAILURES && aborted == (self.append_failures_in_row
            == MAX_CONSECUTIVE_APPEND_FAILURES)
    }

    /// Takes the outcome of one attempt and the clock read after it, brings
    /// the tallies up to date and says what the caller has to do: append the
    /// solution if it reaches the target, count the attempt if the warm-up
    /// window is over, and leave the loop if the run has lasted its full
    /// duration.
    pub fn on_attempt(
        &mut self,
        policy: &TerminationPolicy,
        acceptance_target: u64,
        event: AttemptEvent,
    ) -> (actions: StepActions)
        requires
            old(self).wf(),
            old(self).status is Active ==> old(self).attempts < u64::MAX,
        ensures
            actions == old(self).actions_for(*policy, acceptance_target, event),
            *final(self) == old(self).after_attempt(*policy, acceptance_target, event),
            final(self).wf(),
    {
        match self.status {
            WorkerStatus::Active => {},
            _ => {
                return StepActions { append: None, count: false, stop: true };
            },
        }
        let count = policy.is_warmed_up(event.elapsed_ms);
        let stop = policy.is_expired(event.elapsed_ms);
        self.attempts = self.attempts + 1;
        if count {
            self.counted = self.counted + 1;
        }
        if stop {
            self.status = WorkerStatus::Finished;
        }
        let append = match event.outcome {
            AttemptOutcome::Found(solution) => {
                if solution.is_accepted(acceptance_target) {
                    self.submitted = self.submitted + 1;
                    Some(solution)
                } else {
                    None
                }
            },
            AttemptOutcome::Failed => {
                self.failed = self.failed + 1;
                None
            },
            AttemptOutcome::NoSolution => None,
        };
        StepActions { append, count, stop }
    }

    /// Takes note that the run was called off: the worker makes no further
    /// attempt.
    pub fn on_cancel(&mut self)
        requires
            old(self).wf(),
        ensures
            *final(self) == old(self).after_cancel(),
            final(self).status !is Active,
            final(self).wf(),
    {
        match self.status {
            WorkerStatus::Active => {
                self.status = WorkerStatus::Finished;
            },
            _ => {},
        }
    }

    /// Takes the result of an append and says whether the run goes on.
    pub fn on_append_result(&mut self, succeeded: bool) -> (verdict: AppendVerdict)
        requires
            old(self).wf(),
        ensures
            *final(self) == old(self).after_append(succeeded),
            verdict is Escalate <==> final(self).status is Aborted,
            final(self).wf(),
    {
        match self.status {
            WorkerStatus::Aborted => {
                return AppendVerdict::Escalate;
            },
            _ => {},
        }
        if succeeded {
            self.append_failures_in_row = 0;
            AppendVerdict::Continue
        } else if self.append_failures_in_row + 1 >= MAX_CONSECUTIVE_APPEND_FAILURES {
            self.status = WorkerStatus::Aborted;
            self.append_failures_in_row = MAX_CONSECUTIVE_APPEND_FAILURES;
            AppendVerdict::Escalate
        } else {
            self.append_failures_in_row = self.append_failures_in_row + 1;
            AppendVerdict::Continue
        }
    }
}

/// A worker that has left its loop takes no further attempt into account:
/// its state stays as it is and nothing is handed over for appending.
pub proof fn lemma_stopped_worker_ignores_attempts(
    state: WorkerState,
    policy: TerminationPolicy,
    acceptance_target: u64,
    events: Seq<AttemptEvent>,
)
    requires
        state.status !is Active,
    ensures
        state.replay(policy, acceptance_target, events) == state,
        state.appended(policy, acceptance_target, events) == Seq::<Solution>::empty(),
    decreases events.len(),
{
    if events.len() > 0 {
        lemma_stopped_worker_ignores_attempts(state, policy, acceptance_target, events.drop_last());
    }
}

/// The tallies never go down, whatever the attempts are.
pub proof fn lemma_tallies_never_decrease(
    state: WorkerState,
    policy: TerminationPolicy,
    acceptance_target: u64,
    events: Seq<AttemptEvent>,
)
    requires
        state.wf(),
        state.attempts + events.len() <= u64::MAX,
    ensures
        state.replay(policy, acceptance_target, events).wf(),
        state.replay(policy, acceptance_target, events).attempts >= state.attempts,
        state.replay(policy, acceptance_target, events).attempts <= state.attempts + events.len(),
        state.replay(policy, acceptance_target, events).counted >= state.counted,
        state.replay(policy, acceptance_target, events).submitted >= state.submitted,
        state.replay(policy, acceptance_target, events).failed >= state.failed,
    decreases events.len(),
{
    if events.len() > 0 {
        lemma_tallies_never_decrease(state, policy, acceptance_target, events.drop_last());
    }
}

/// Over the attempts of an active worker that leaves at the first check that
/// finds the run over, every attempt is tallied once, the counted attempts
/// are exactly those made after the warm-up window, and the worker has
/// finished exactly when the last attempt found the run over.
pub proof fn lemma_counts_each_qualifying_attempt_once(
    state: WorkerState,
    policy: TerminationPolicy,
    acceptance_target: u64,
    events: Seq<AttemptEvent>,
)
    requires
        state.wf(),
        state.status is Active,
        state.attempts + events.len() <= u64::MAX,
        stops_at_expiry(policy, events),
    ensures
        state.replay(policy, acceptance_target, events).attempts == state.attempts + events.len(),
        state.replay(policy, acceptance_target, events).counted == state.counted + qualifying(
            policy,
            events,
        ),
        state.replay(policy, acceptance_target, events).status is Finished <==> events.len() > 0
            && policy.expired(events.last().elapsed_ms),
        state.replay(policy, acceptance_target, events).status !is Aborted,
    decreases events.len(),
{
    reveal(Seq::filter);
    if events.len() > 0 {
        let before = events.drop_last();
        assert(stops_at_expiry(policy, before)) by {
            assert forall|i: int| 0 <= i < before.len() - 1 implies !policy.expired(
                #[trigger] before[i].elapsed_ms,
            ) by {
                assert(before[i] == events[i]);
            }
        }
        lemma_counts_each_qualifying_attempt_once(state, policy, acceptance_target, before);
        if before.len() > 0 {
            assert(before.last() == events[before.len() - 1]);
            assert(!policy.expired(events[before.len() - 1].elapsed_ms));
        }
    }
}

/// Over the attempts of an active worker that leaves at the first check that
/// finds the run over, the solutions handed over for appending are exactly
/// the candidates whose score reaches the target, each once and in the order
/// in which they were found; a candidate below the target is never handed
/// over.
pub proof fn lemma_appends_each_accepted_solution_once(
    state: WorkerState,
    policy: TerminationPolicy,
    acceptance_target: u64,
    events: Seq<AttemptEvent>,
)
    requires
        state.wf(),
        state.status is Active,
        state.attempts + events.len() <= u64::MAX,
        stops_at_expiry(policy, events),
    ensures
        state.appended(policy, acceptance_target, events) == accepted_among(
            acceptance_target,
            events,
        ),
        state.replay(policy, acceptance_target, events).submitted == state.submitted
            + accepted_among(acceptance_target, events).len(),
        forall|i: int|
            0 <= i < accepted_among(acceptance_target, events).len() ==> (#[trigger] accepted_among(
                acceptance_target,
                events,
            )[i]).score >= acceptance_target,
    decreases events.len(),
{
    if events.len() > 0 {
        let before = events.drop_last();
        assert(stops_at_expiry(policy, before)) by {
            assert forall|i: int| 0 <= i < before.len() - 1 implies !policy.expired(
                #[trigger] before[i].elapsed_ms,
            ) by {
                assert(before[i] == events[i]);
            }
        }
        lemma_appends_each_accepted_solution_once(state, policy, acceptance_target, before);
        lemma_counts_each_qualifying_attempt_once(state, policy, acceptance_target, before);
        lemma_tallies_never_decrease(state, policy, acceptance_target, before);
        if before.len() > 0 {
            assert(before.last() == events[before.len() - 1]);
            assert(!policy.expired(events[before.len() - 1].elapsed_ms));
        }
        let f = |e: AttemptEvent| accepted_solution(e.outcome, acceptance_target);
        assert(accepted_among(acceptance_target, events) == match f(events.last()) {
            Some(s) => before.filter_map(f) + seq![s],
            None => before.filter_map(f),
        });
        match f(events.last()) {
            Some(s) => {
                assert(before.filter_map(f) + seq![s] =~= before.filter_map(f).push(s));
            },
            None => {},
        }
    }
}

} // verus!
