use prover_client::policy::TerminationPolicy;
use prover_client::solution::Solution;
use prover_client::worker::{
    AppendVerdict, AttemptEvent, AttemptOutcome, StepActions, WorkerState, WorkerStatus,
};

fn short_policy() -> TerminationPolicy {
    TerminationPolicy { warm_up_s: 1, total_s: 3 }
}

fn scored(score: u64, tag: u8) -> Solution {
    Solution { commitment: vec![tag], score, raw_bytes: vec![tag, tag, tag] }
}

fn found(score: u64, tag: u8, elapsed_ms: u64) -> AttemptEvent {
    AttemptEvent { outcome: AttemptOutcome::Found(scored(score, tag)), elapsed_ms }
}

fn nothing(elapsed_ms: u64) -> AttemptEvent {
    AttemptEvent { outcome: AttemptOutcome::NoSolution, elapsed_ms }
}

fn failed(elapsed_ms: u64) -> AttemptEvent {
    AttemptEvent { outcome: AttemptOutcome::Failed, elapsed_ms }
}

#[test]
fn new_worker_is_active_with_empty_tallies() {
    let state = WorkerState::new();
    assert_eq!(
        state,
        WorkerState {
            status: WorkerStatus::Active,
            attempts: 0,
            counted: 0,
            submitted: 0,
            failed: 0,
            append_failures_in_row: 0,
        }
    );
}

#[test]
fn attempt_during_warm_up_is_not_counted() {
    let mut state = WorkerState::new();
    let actions = state.on_attempt(&short_policy(), 10, nothing(999));
    assert_eq!(actions, StepActions { append: None, count: false, stop: false });
    assert_eq!(state.attempts, 1);
    assert_eq!(state.counted, 0);
    assert_eq!(state.status, WorkerStatus::Active);
}

#[test]
fn attempt_after_warm_up_is_counted_once() {
    let mut state = WorkerState::new();
    let actions = state.on_attempt(&short_policy(), 10, nothing(1000));
    assert_eq!(actions, StepActions { append: None, count: true, stop: false });
    assert_eq!(state.attempts, 1);
    assert_eq!(state.counted, 1);
}

#[test]
fn solution_at_target_is_appended() {
    let mut state = WorkerState::new();
    let actions = state.on_attempt(&short_policy(), 10, found(10, 7, 1500));
    assert_eq!(actions.append, Some(scored(10, 7)));
    assert_eq!(state.submitted, 1);
}

#[test]
fn solution_above_target_is_appended() {
    let mut state = WorkerState::new();
    let actions = state.on_attempt(&short_policy(), 10, found(u64::MAX, 1, 0));
    assert_eq!(actions.append, Some(scored(u64::MAX, 1)));
    assert!(!actions.count);
}

#[test]
fn solution_below_target_is_dropped() {
    let mut state = WorkerState::new();
    let actions = state.on_attempt(&short_policy(), 10, found(9, 7, 1500));
    assert_eq!(actions, StepActions { append: None, count: true, stop: false });
    assert_eq!(state.submitted, 0);
    assert_eq!(state.attempts, 1);
}

#[test]
fn failed_attempt_is_contained() {
    let mut state = WorkerState::new();
    let actions = state.on_attempt(&short_policy(), 10, failed(1500));
    assert_eq!(actions, StepActions { append: None, count: true, stop: false });
    assert_eq!(state.failed, 1);
    assert_eq!(state.status, WorkerStatus::Active);
    let actions = state.on_attempt(&short_policy(), 10, found(11, 2, 1600));
    assert_eq!(actions.append, Some(scored(11, 2)));
}

#[test]
fn worker_stops_when_run_has_expired() {
    let mut state = WorkerState::new();
    let actions = state.on_attempt(&short_policy(), 10, found(10, 3, 3000));
    assert_eq!(actions, StepActions { append: Some(scored(10, 3)), count: true, stop: true });
    assert_eq!(state.status, WorkerStatus::Finished);
    assert_eq!(state.attempts, 1);
    assert_eq!(state.counted, 1);
}

#[test]
fn stopped_worker_ignores_further_attempts() {
    let mut state = WorkerState::new();
    state.on_attempt(&short_policy(), 10, nothing(3000));
    let before = state;
    let actions = state.on_attempt(&short_policy(), 10, found(99, 1, 3500));
    assert_eq!(actions, StepActions { append: None, count: false, stop: true });
    assert_eq!(state, before);
}

#[test]
fn counted_matches_qualifying_attempts() {
    let mut state = WorkerState::new();
    let times = [0u64, 400, 999, 1000, 1001, 1700, 2999, 3000];
    let mut qualifying: u64 = 0;
    let mut previous: u64 = 0;
    for t in times {
        let actions = state.on_attempt(&short_policy(), 10, nothing(t));
        if t >= 1000 {
            qualifying += 1;
        }
        assert_eq!(actions.count, t >= 1000);
        assert!(state.counted >= previous);
        previous = state.counted;
    }
    assert_eq!(state.attempts, 8);
    assert_eq!(state.counted, qualifying);
    assert_eq!(state.counted, 5);
    assert_eq!(state.status, WorkerStatus::Finished);
}

#[test]
fn accepted_solutions_are_appended_once_and_in_order() {
    let mut state = WorkerState::new();
    let scores = [5u64, 10, 9, 30, 10, 0, 11];
    let mut appended = Vec::new();
    let mut tag: u8 = 0;
    for score in scores {
        let actions = state.on_attempt(&short_policy(), 10, found(score, tag, 100 * u64::from(tag)));
        tag += 1;
        if let Some(s) = actions.append {
            appended.push(s);
        }
    }
    assert_eq!(appended, vec![scored(10, 1), scored(30, 3), scored(10, 4), scored(11, 6)]);
    assert_eq!(state.submitted, 4);
}

#[test]
fn cancelled_worker_has_finished() {
    let mut state = WorkerState::new();
    state.on_attempt(&short_policy(), 10, nothing(10));
    state.on_cancel();
    assert_eq!(state.status, WorkerStatus::Finished);
    assert_eq!(state.attempts, 1);
    let actions = state.on_attempt(&short_policy(), 10, found(99, 1, 20));
    assert_eq!(actions, StepActions { append: None, count: false, stop: true });
}

#[test]
fn successful_append_continues() {
    let mut state = WorkerState::new();
    assert_eq!(state.on_append_result(true), AppendVerdict::Continue);
    assert_eq!(state.append_failures_in_row, 0);
    assert_eq!(state.status, WorkerStatus::Active);
}

#[test]
fn third_failed_append_in_a_row_escalates() {
    let mut state = WorkerState::new();
    assert_eq!(state.on_append_result(false), AppendVerdict::Continue);
    assert_eq!(state.on_append_result(false), AppendVerdict::Continue);
    assert_eq!(state.append_failures_in_row, 2);
    assert_eq!(state.on_append_result(false), AppendVerdict::Escalate);
    assert_eq!(state.status, WorkerStatus::Aborted);
    assert_eq!(state.append_failures_in_row, 3);
}

#[test]
fn success_clears_failures_in_a_row() {
    let mut state = WorkerState::new();
    state.on_append_result(false);
    state.on_append_result(false);
    assert_eq!(state.on_append_result(true), AppendVerdict::Continue);
    assert_eq!(state.append_failures_in_row, 0);
    assert_eq!(state.on_append_result(false), AppendVerdict::Continue);
    assert_eq!(state.on_append_result(false), AppendVerdict::Continue);
    assert_eq!(state.status, WorkerStatus::Active);
}

#[test]
fn aborted_worker_stays_aborted() {
    let mut state = WorkerState::new();
    state.on_append_result(false);
    state.on_append_result(false);
    state.on_append_result(false);
    assert_eq!(state.on_append_result(true), AppendVerdict::Escalate);
    assert_eq!(state.status, WorkerStatus::Aborted);
    let actions = state.on_attempt(&short_policy(), 10, found(99, 1, 20));
    assert_eq!(actions, StepActions { append: None, count: false, stop: true });
    state.on_cancel();
    assert_eq!(state.status, WorkerStatus::Aborted);
}

#[test]
fn states_made_by_the_library_are_well_formed() {
    let mut state = WorkerState::new();
    assert!(state.is_wf());
    state.on_attempt(&short_policy(), 10, found(10, 1, 1500));
    state.on_attempt(&short_policy(), 10, failed(1600));
    state.on_append_result(false);
    assert!(state.is_wf());
    state.on_attempt(&short_policy(), 10, nothing(3000));
    assert!(state.is_wf());
}

#[test]
fn state_with_mismatched_tallies_is_not_well_formed() {
    let mut state = WorkerState::new();
    state.counted = 1;
    assert!(!state.is_wf());
    let mut state = WorkerState::new();
    state.attempts = 2;
    state.submitted = 2;
    state.failed = 1;
    assert!(!state.is_wf());
    let mut state = WorkerState::new();
    state.status = WorkerStatus::Aborted;
    assert!(!state.is_wf());
    let mut state = WorkerState::new();
    state.append_failures_in_row = 3;
    assert!(!state.is_wf());
    state.status = WorkerStatus::Aborted;
    assert!(state.is_wf());
    state.append_failures_in_row = 4;
    assert!(!state.is_wf());
}
