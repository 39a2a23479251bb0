use prover_client::monitor::{throughput_centi, Monitor, PollActions, Report};
use prover_client::policy::{Phase, TerminationPolicy};

fn long_policy() -> TerminationPolicy {
    TerminationPolicy { warm_up_s: 60, total_s: 600 }
}

#[test]
fn throughput_is_attempts_per_second_in_hundredths() {
    assert_eq!(throughput_centi(1234, 10_000), Some(12_340));
    assert_eq!(throughput_centi(1, 3_000), Some(33));
    assert_eq!(throughput_centi(0, 5), Some(0));
    assert_eq!(throughput_centi(7, 1), Some(700_000));
}

#[test]
fn throughput_of_empty_window_is_none() {
    assert_eq!(throughput_centi(0, 0), None);
    assert_eq!(throughput_centi(55, 0), None);
}

#[test]
fn throughput_of_largest_count_does_not_overflow() {
    assert_eq!(throughput_centi(u64::MAX, 1), Some(u128::from(u64::MAX) * 100_000));
    assert_eq!(throughput_centi(u64::MAX, u64::MAX), Some(100_000));
}

#[test]
fn monitor_starts_warming_up() {
    let monitor = Monitor::new(long_policy(), 8);
    assert_eq!(monitor, Monitor { policy: long_policy(), phase: Phase::WarmingUp, workers: 8, joined: 0 });
    assert!(!monitor.is_terminated());
}

#[test]
fn monitor_without_warm_up_starts_running() {
    let monitor = Monitor::new(TerminationPolicy { warm_up_s: 0, total_s: 1 }, 1);
    assert_eq!(monitor.phase, Phase::Running);
}

#[test]
fn poll_during_warm_up_reports_warming_up() {
    let mut monitor = Monitor::new(long_policy(), 2);
    let actions = monitor.on_poll(5_000, 0);
    assert_eq!(actions, PollActions { report: Report::WarmingUp, stop: false });
    assert_eq!(monitor.phase, Phase::WarmingUp);
}

#[test]
fn poll_after_warm_up_reports_rate() {
    let mut monitor = Monitor::new(long_policy(), 2);
    let actions = monitor.on_poll(65_000, 250);
    assert_eq!(
        actions,
        PollActions {
            report: Report::Throughput { elapsed_ms: 65_000, attempts: 250, rate_centi: Some(5_000) },
            stop: false,
        }
    );
    assert_eq!(monitor.phase, Phase::Running);
}

#[test]
fn poll_at_end_of_warm_up_has_no_rate() {
    let mut monitor = Monitor::new(long_policy(), 2);
    let actions = monitor.on_poll(60_000, 3);
    assert_eq!(
        actions.report,
        Report::Throughput { elapsed_ms: 60_000, attempts: 3, rate_centi: None }
    );
}

#[test]
fn poll_after_duration_stops_the_run() {
    let mut monitor = Monitor::new(long_policy(), 2);
    let actions = monitor.on_poll(600_000, 5_400);
    assert_eq!(
        actions,
        PollActions {
            report: Report::Throughput {
                elapsed_ms: 600_000,
                attempts: 5_400,
                rate_centi: Some(1_000),
            },
            stop: true,
        }
    );
    assert_eq!(monitor.phase, Phase::Terminating);
    assert!(!monitor.is_terminated());
}

#[test]
fn run_is_terminated_after_last_join() {
    let mut monitor = Monitor::new(long_policy(), 3);
    monitor.on_poll(600_001, 1);
    assert_eq!(monitor.on_worker_joined(), Phase::Terminating);
    assert_eq!(monitor.on_worker_joined(), Phase::Terminating);
    assert_eq!(monitor.on_worker_joined(), Phase::Terminated);
    assert!(monitor.is_terminated());
    assert_eq!(monitor.joined, 3);
}

#[test]
fn join_beyond_worker_count_changes_nothing() {
    let mut monitor = Monitor::new(long_policy(), 1);
    monitor.on_poll(600_000, 1);
    monitor.on_worker_joined();
    let before = monitor;
    assert_eq!(monitor.on_worker_joined(), Phase::Terminated);
    assert_eq!(monitor, before);
}

#[test]
fn early_joins_terminate_at_expiry() {
    let mut monitor = Monitor::new(long_policy(), 2);
    assert_eq!(monitor.on_worker_joined(), Phase::WarmingUp);
    assert_eq!(monitor.on_worker_joined(), Phase::WarmingUp);
    let actions = monitor.on_poll(70_000, 9);
    assert!(!actions.stop);
    assert_eq!(monitor.phase, Phase::Running);
    let actions = monitor.on_poll(600_000, 9);
    assert!(actions.stop);
    assert_eq!(monitor.phase, Phase::Terminated);
}

#[test]
fn monitor_phase_never_goes_back() {
    let mut monitor = Monitor::new(long_policy(), 1);
    monitor.on_poll(100_000, 1);
    assert_eq!(monitor.phase, Phase::Running);
    monitor.on_poll(10_000, 1);
    assert_eq!(monitor.phase, Phase::Running);
    monitor.on_poll(700_000, 1);
    assert_eq!(monitor.phase, Phase::Terminating);
    let actions = monitor.on_poll(10_000, 1);
    assert_eq!(actions, PollActions { report: Report::WarmingUp, stop: true });
    assert_eq!(monitor.phase, Phase::Terminating);
    monitor.on_worker_joined();
    monitor.on_poll(10_000, 1);
    assert_eq!(monitor.phase, Phase::Terminated);
}

#[test]
fn monitor_of_no_workers_terminates_at_expiry() {
    let mut monitor = Monitor::new(long_policy(), 0);
    assert_eq!(monitor.phase, Phase::WarmingUp);
    monitor.on_poll(600_000, 0);
    assert_eq!(monitor.phase, Phase::Terminated);
}

#[test]
fn monitor_well_formedness_is_checked() {
    let mut monitor = Monitor::new(long_policy(), 2);
    assert!(monitor.is_wf());
    monitor.on_poll(600_000, 1);
    monitor.on_worker_joined();
    assert!(monitor.is_wf());
    monitor.joined = 3;
    assert!(!monitor.is_wf());
    monitor.joined = 1;
    monitor.phase = Phase::Terminated;
    assert!(!monitor.is_wf());
    monitor.joined = 2;
    assert!(monitor.is_wf());
}
