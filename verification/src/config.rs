//! Command-line settings and the validated configuration of a run.

use vstd::prelude::*;
use crate::consts::{POLL_INTERVAL_SECS, RUN_DURATION_SECS, SHARE_TARGET, WARM_UP_SECS};

verus! {

/// Settings given on the command line.
#[derive(Clone, Debug, PartialEq, Eq)]
pub struct Args {
    /// Optional comment recorded with the client information.
    pub caption: Option<String>,
    /// The number of puzzle solvers, each with a thread pool of its own.
    pub parallel_num: usize,
    /// The number of threads in each puzzle solver.
    pub threads_num: u16,
}

/// Why a configuration is refused before anything is started.
#[derive(Clone, Copy, Debug, PartialEq, Eq, Structural)]
pub enum ConfigError {
    /// `pool_count` is zero.
    ZeroPoolCount,
    /// `threads_per_pool` is zero.
    ZeroThreadsPerPool,
    /// `pool_count * threads_per_pool` does not fit in a `usize`.
    ParallelismOverflow,
    /// `poll_interval_s` is zero.
    ZeroPollInterval,
    /// The warm-up window is longer than the whole run.
    WarmUpExceedsDuration,
}

/// The first rule that a pair of parallelism settings breaks, if any.
pub open spec fn parallelism_error(pool_count: usize, threads_per_pool: usize) -> Option<
    ConfigError,
> {
    if pool_count == 0 {
        Some(ConfigError::ZeroPoolCount)
    } else if threads_per_pool == 0 {
        Some(ConfigError::ZeroThreadsPerPool)
    } else if pool_count * threads_per_pool > usize::MAX {
        Some(ConfigError::ParallelismOverflow)
    } else {
        None
    }
}

/// Checks the parallelism settings and returns the number of workers they
/// ask for, `pool_count * threads_per_pool`.
pub fn effective_parallelism(pool_count: usize, threads_per_pool: usize) -> (r: Result<
    usize,
    ConfigError,
>)
    ensures
        match parallelism_error(pool_count, threads_per_pool) {
            Some(e) => r == Err::<usize, ConfigError>(e),
            None => r == Ok::<usize, ConfigError>((pool_count * threads_per_pool) as usize),
        },
        r matches Ok(k) ==> k >= 1,
{
    if pool_count == 0 {
        return Err(ConfigError::ZeroPoolCount);
    }
    if threads_per_pool == 0 {
        return Err(ConfigError::ZeroThreadsPerPool);
    }
    match pool_count.checked_mul(threads_per_pool) {
        Some(k) => {
            assert(k >= 1) by (nonlinear_arith)
                requires
                    k == pool_count * threads_per_pool,
                    pool_count >= 1,
                    threads_per_pool >= 1,
            ;
            Ok(k)
        },
        None => Err(ConfigError::ParallelismOverflow),
    }
}

/// Calls `num_cpus::get`, which gives the number of logical CPUs that this
/// process may use. The number depends on the machine and on the limits set
/// for the process, so nothing is said of it.
#[verifier::external_body]
fn logical_cpus() -> (cpus: usize) {
    num_cpus::get()
}

/// The number of puzzle solvers to run where none is asked for: a quarter
/// of the logical CPUs, rounded down.
pub fn default_parallel_num_for(cpus: usize) -> (n: usize)
    ensures
        n == cpus / 4,
{
    cpus / 4
}

/// The number of puzzle solvers to run on this machine where none is asked
/// for. On a machine of fewer than four logical CPUs it is zero, which is
/// not a valid setting.
pub fn default_parallel_num() -> (n: usize)
    ensures
        n <= usize::MAX / 4,
{
    default_parallel_num_for(logical_cpus())
}

/// Everything that is fixed for the length of one run.
#[derive(Clone, Copy, Debug, PartialEq, Eq, Structural)]
pub struct RunConfig {
    /// Number of independent thread pools.
    pub pool_count: usize,
    /// Number of worker threads in each pool.
    pub threads_per_pool: usize,
    /// Minimum score of a recorded solution.
    pub acceptance_target: u64,
    /// Length of the warm-up window, in seconds.
    pub warm_up_threshold_s: u64,
    /// Length of the whole run, in seconds.
    pub total_run_duration_s: u64,
    /// Time between two polls of the monitor, in seconds.
    pub poll_interval_s: u64,
}

impl RunConfig {
    /// The first rule that this configuration breaks, if any. Parallelism is
    /// looked at before the durations.
    pub open spec fn error(self) -> Option<ConfigError> {
        if parallelism_error(self.pool_count, self.threads_per_pool) is Some {
            parallelism_error(self.pool_count, self.threads_per_pool)
        } else if self.poll_interval_s == 0 {
            Some(ConfigError::ZeroPollInterval)
        } else if self.warm_up_threshold_s > self.total_run_duration_s {
            Some(ConfigError::WarmUpExceedsDuration)
        } else {
            None
        }
    }

    /// A configuration is valid when it breaks no rule.
    pub open spec fn valid(self) -> bool {
        self.error() is None
    }

    /// The number of workers of a valid configuration.
    pub open spec fn parallelism(self) -> nat {
        (self.pool_count * self.threads_per_pool) as nat
    }

    /// The configuration that the command-line settings stand for, with the
    /// fixed target, durations and polling interval.
    pub fn from_args(args: &Args) -> (cfg: RunConfig)
        ensures
            cfg == (RunConfig {
                pool_count: args.parallel_num,
                threads_per_pool: args.threads_num as usize,
                acceptance_target: SHARE_TARGET,
                warm_up_threshold_s: WARM_UP_SECS,
                total_run_duration_s: RUN_DURATION_SECS,
                poll_interval_s: POLL_INTERVAL_SECS,
            }),
    {
        RunConfig {
            pool_count: args.parallel_num,
            threads_per_pool: args.threads_num as usize,
            acceptance_target: SHARE_TARGET,
            warm_up_threshold_s: WARM_UP_SECS,
            total_run_duration_s: RUN_DURATION_SECS,
            poll_interval_s: POLL_INTERVAL_SECS,
        }
    }

    /// Checks every rule and returns the number of workers to start.
    pub fn validate(&self) -> (r: Result<usize, ConfigError>)
        ensures
            match self.error() {
                Some(e) => r == Err::<usize, ConfigError>(e),
                None => r == Ok::<usize, ConfigError>(self.parallelism() as usize),
            },
            r is Ok <==> self.valid(),
            r matches Ok(k) ==> k >= 1,
    {
        let k = match effective_parallelism(self.pool_count, self.threads_per_pool) {
            Ok(k) => k,
            Err(e) => {
                return Err(e);
            },
        };
        if self.poll_interval_s == 0 {
            return Err(ConfigError::ZeroPollInterval);
        }
        if self.warm_up_threshold_s > self.total_run_duration_s {
            return Err(ConfigError::WarmUpExceedsDuration);
        }
        Ok(k)
    }
}

} // verus!
