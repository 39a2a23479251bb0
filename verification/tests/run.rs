use prover_client::config::{ConfigError, RunConfig};
use prover_client::monitor::{Monitor, Report};
use prover_client::policy::{Phase, TerminationPolicy};
use prover_client::pool::{PoolError, WorkerPool};
use prover_client::solution::{Challenge, Solution};
use prover_client::store::{decode_log, encode_header, encode_solution, RunMetadata};
use prover_client::worker::{
    AppendVerdict, AttemptEvent, AttemptOutcome, WorkerState, WorkerStatus,
};
use std::sync::atomic::{AtomicBool, AtomicU64, Ordering};
use std::sync::{Arc, Mutex};
use std::time::Instant;

struct Shared {
    log: Mutex<Vec<u8>>,
    attempts: AtomicU64,
    instrumented: AtomicU64,
    cancel: AtomicBool,
    start: Instant,
}

impl Shared {
    fn new(header: Vec<u8>) -> Arc<Shared> {
        Arc::new(Shared {
            log: Mutex::new(header),
            attempts: AtomicU64::new(0),
            instrumented: AtomicU64::new(0),
            cancel: AtomicBool::new(false),
            start: Instant::now(),
        })
    }

    fn elapsed_ms(&self) -> u64 {
        u64::try_from(self.start.elapsed().as_millis()).unwrap()
    }
}

fn pause(millis: u64) {
    let from = Instant::now();
    while u64::try_from(from.elapsed().as_millis()).unwrap() < millis {
        std::hint::spin_loop();
    }
}

fn work(
    shared: &Shared,
    cfg: &RunConfig,
    solve: fn(u64) -> AttemptOutcome,
) -> WorkerState {
    let policy = TerminationPolicy::of_config(cfg);
    let mut state = WorkerState::new();
    let mut nonce: u64 = 0;
    loop {
        if shared.cancel.load(Ordering::SeqCst) {
            state.on_cancel();
            break;
        }
        if state.attempts == u64::MAX {
            break;
        }
        nonce += 1;
        let outcome = solve(nonce);
        pause(1);
        let elapsed_ms = shared.elapsed_ms();
        if elapsed_ms >= cfg.warm_up_threshold_s * 1000 {
            shared.instrumented.fetch_add(1, Ordering::SeqCst);
        }
        let actions = state.on_attempt(
            &policy,
            cfg.acceptance_target,
            AttemptEvent { outcome, elapsed_ms },
        );
        if let Some(solution) = actions.append {
            shared.log.lock().unwrap().extend(encode_solution(&solution));
            if state.on_append_result(true) == AppendVerdict::Escalate {
                break;
            }
        }
        if actions.count {
            shared.attempts.fetch_add(1, Ordering::SeqCst);
        }
        if actions.stop {
            break;
        }
    }
    state
}

fn run(cfg: RunConfig, solve: fn(u64) -> AttemptOutcome) -> (Vec<WorkerState>, Arc<Shared>, Monitor) {
    let workers = cfg.validate().unwrap();
    let challenge = Challenge { task_id: "zk_games".to_string(), puzzle_params: vec![1, 2, 3] };
    let meta = RunMetadata::for_challenge(&challenge, cfg.acceptance_target, 32768, 8191);
    let shared = Shared::new(encode_header(&meta));
    let started = WorkerPool::start(cfg.pool_count, cfg.threads_per_pool).unwrap();
    assert_eq!(started.parallelism(), workers);
    let handles = started.spawn_workers(|_slot| {
        let shared = shared.clone();
        move || work(&shared, &cfg, solve)
    });
    assert_eq!(handles.len(), workers);
    let mut monitor = Monitor::new(TerminationPolicy::of_config(&cfg), workers);
    let mut last_attempts: u64 = 0;
    loop {
        pause(100);
        let attempts = shared.attempts.load(Ordering::SeqCst);
        assert!(attempts >= last_attempts);
        last_attempts = attempts;
        let actions = monitor.on_poll(shared.elapsed_ms(), attempts);
        if let Report::Throughput { attempts: reported, .. } = actions.report {
            assert_eq!(reported, attempts);
        }
        if actions.stop {
            shared.cancel.store(true, Ordering::SeqCst);
            break;
        }
    }
    assert_eq!(monitor.phase, Phase::Terminating);
    let runtime = tokio::runtime::Builder::new_current_thread().build().unwrap();
    let mut states = Vec::new();
    for handle in handles {
        states.push(runtime.block_on(handle));
        monitor.on_worker_joined();
    }
    (states, shared, monitor)
}

fn always_at_target(nonce: u64) -> AttemptOutcome {
    AttemptOutcome::Found(Solution {
        commitment: nonce.to_le_bytes().to_vec(),
        score: 30000,
        raw_bytes: nonce.to_be_bytes().to_vec(),
    })
}

fn never(_nonce: u64) -> AttemptOutcome {
    AttemptOutcome::NoSolution
}

fn by_nonce(nonce: u64) -> AttemptOutcome {
    match nonce % 4 {
        0 => AttemptOutcome::Failed,
        1 => AttemptOutcome::NoSolution,
        2 => AttemptOutcome::Found(Solution {
            commitment: vec![],
            score: 29999,
            raw_bytes: b"below".to_vec(),
        }),
        _ => AttemptOutcome::Found(Solution {
            commitment: vec![],
            score: 30001,
            raw_bytes: b"above".to_vec(),
        }),
    }
}

#[test]
fn one_second_run_logs_a_solution_and_terminates() {
    let cfg = RunConfig {
        pool_count: 1,
        threads_per_pool: 1,
        acceptance_target: 30000,
        warm_up_threshold_s: 0,
        total_run_duration_s: 1,
        poll_interval_s: 1,
    };
    let (states, shared, monitor) = run(cfg, always_at_target);
    let took = shared.elapsed_ms();
    assert!(took >= 1000);
    assert!(took < 5000);
    assert!(monitor.is_terminated());
    assert_eq!(states.len(), 1);
    assert_eq!(states[0].status, WorkerStatus::Finished);
    let record = decode_log(&shared.log.lock().unwrap()).unwrap();
    assert!(record.solutions.len() >= 1);
    assert_eq!(u64::try_from(record.solutions.len()).unwrap(), states[0].submitted);
    assert_eq!(states[0].submitted, states[0].attempts);
    assert_eq!(record.metadata.acceptance_target, 30000);
    assert_eq!(record.metadata.run_id, b"zk_games".to_vec());
    let mut nonce: u64 = 0;
    for raw in &record.solutions {
        nonce += 1;
        assert_eq!(raw, &nonce.to_be_bytes().to_vec());
    }
}

#[test]
fn shared_counter_matches_instrumented_attempts() {
    let cfg = RunConfig {
        pool_count: 2,
        threads_per_pool: 2,
        acceptance_target: 30000,
        warm_up_threshold_s: 1,
        total_run_duration_s: 2,
        poll_interval_s: 1,
    };
    let (states, shared, monitor) = run(cfg, never);
    assert!(monitor.is_terminated());
    assert_eq!(states.len(), 4);
    let counter = shared.attempts.load(Ordering::SeqCst);
    let instrumented = shared.instrumented.load(Ordering::SeqCst);
    let mut counted: u64 = 0;
    let mut attempts: u64 = 0;
    for state in &states {
        assert_eq!(state.status, WorkerStatus::Finished);
        assert_eq!(state.submitted, 0);
        counted += state.counted;
        attempts += state.attempts;
    }
    assert!(counter > 0);
    assert_eq!(counter, instrumented);
    assert_eq!(counter, counted);
    assert!(attempts > counted);
    let record = decode_log(&shared.log.lock().unwrap()).unwrap();
    assert_eq!(record.solutions.len(), 0);
}

#[test]
fn only_solutions_at_or_above_target_reach_the_log() {
    let cfg = RunConfig {
        pool_count: 2,
        threads_per_pool: 1,
        acceptance_target: 30000,
        warm_up_threshold_s: 0,
        total_run_duration_s: 1,
        poll_interval_s: 1,
    };
    let (states, shared, _monitor) = run(cfg, by_nonce);
    let mut submitted: u64 = 0;
    let mut failed: u64 = 0;
    for state in &states {
        submitted += state.submitted;
        failed += state.failed;
        assert_eq!(state.failed, state.attempts / 4);
        assert_eq!(state.submitted, (state.attempts + 1) / 4);
    }
    assert!(failed > 0);
    let record = decode_log(&shared.log.lock().unwrap()).unwrap();
    assert_eq!(u64::try_from(record.solutions.len()).unwrap(), submitted);
    for raw in &record.solutions {
        assert_eq!(raw, &b"above".to_vec());
    }
}

#[test]
fn concurrent_appends_never_interleave() {
    let threads: u8 = 4;
    let per_thread: u8 = 200;
    let started = WorkerPool::start(1, usize::from(threads)).unwrap();
    let challenge = Challenge { task_id: "t".to_string(), puzzle_params: vec![] };
    let header = encode_header(&RunMetadata::for_challenge(&challenge, 1, 2, 3));
    let log = Mutex::new(header);
    started.pools[0].scope(|scope| {
        for thread in 0..threads {
            let log = &log;
            scope.spawn(move |_| {
                for index in 0..per_thread {
                    let mut raw = vec![thread, index];
                    raw.extend(vec![thread ^ index; usize::from(index) + 1]);
                    raw.extend(b"===");
                    let solution = Solution { commitment: vec![], score: 1, raw_bytes: raw };
                    let record = encode_solution(&solution);
                    log.lock().unwrap().extend(record);
                }
            });
        }
    });
    let record = decode_log(&log.lock().unwrap()).unwrap();
    assert_eq!(record.solutions.len(), usize::from(threads) * usize::from(per_thread));
    let mut next: Vec<u8> = vec![0; usize::from(threads)];
    for raw in &record.solutions {
        let thread = raw[0];
        let index = raw[1];
        assert!(thread < threads);
        assert_eq!(index, next[usize::from(thread)]);
        next[usize::from(thread)] += 1;
        let mut expected = vec![thread, index];
        expected.extend(vec![thread ^ index; usize::from(index) + 1]);
        expected.extend(b"===");
        assert_eq!(raw, &expected);
    }
    assert_eq!(next, vec![per_thread; usize::from(threads)]);
}

#[test]
fn invalid_parallelism_fails_before_anything_is_started() {
    let mut cfg = RunConfig {
        pool_count: 0,
        threads_per_pool: 4,
        acceptance_target: 30000,
        warm_up_threshold_s: 0,
        total_run_duration_s: 1,
        poll_interval_s: 1,
    };
    assert_eq!(cfg.validate(), Err(ConfigError::ZeroPoolCount));
    assert!(matches!(
        WorkerPool::start(cfg.pool_count, cfg.threads_per_pool),
        Err(PoolError::ConfigError(ConfigError::ZeroPoolCount))
    ));
    cfg.pool_count = 4;
    cfg.threads_per_pool = 0;
    assert_eq!(cfg.validate(), Err(ConfigError::ZeroThreadsPerPool));
    assert!(matches!(
        WorkerPool::start(cfg.pool_count, cfg.threads_per_pool),
        Err(PoolError::ConfigError(ConfigError::ZeroThreadsPerPool))
    ));
}

#[test]
fn failing_appends_escalate_after_three_in_a_row() {
    let policy = TerminationPolicy { warm_up_s: 0, total_s: 600 };
    let mut state = WorkerState::new();
    let mut lost: u32 = 0;
    let mut verdict = AppendVerdict::Continue;
    let mut nonce: u64 = 0;
    while verdict == AppendVerdict::Continue {
        nonce += 1;
        let actions = state.on_attempt(
            &policy,
            30000,
            AttemptEvent { outcome: always_at_target(nonce), elapsed_ms: nonce },
        );
        assert!(actions.append.is_some());
        lost += 1;
        verdict = state.on_append_result(false);
        assert!(lost <= 3);
    }
    assert_eq!(lost, 3);
    assert_eq!(state.status, WorkerStatus::Aborted);
}
