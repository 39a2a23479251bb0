//! The thread pools of a run and the workers laid out over them.
//!
//! A run has `pool_count` thread pools of `threads_per_pool` threads each.
//! Every pool is a failure domain of its own. One worker loop is started for
//! each thread of each pool: the plan lists them, pool by pool.

use vstd::prelude::*;
use vstd::arithmetic::div_mod::{lemma_fundamental_div_mod, lemma_fundamental_div_mod_converse};
use crate::config::{effective_parallelism, parallelism_error, ConfigError};
use crate::consts::THREAD_STACK_SIZE;

verus! {

/// `rayon::ThreadPool`, a set of threads that runs the jobs handed to it.
/// Nothing inside it is looked at.
#[verifier::external_type_specification]
#[verifier::external_body]
pub struct ExThreadPool(rayon::ThreadPool);

/// `rayon::ThreadPoolBuildError`, the reason why a pool could not be built.
/// Nothing inside it is looked at.
#[verifier::external_type_specification]
#[verifier::external_body]
pub struct ExThreadPoolBuildError(rayon::ThreadPoolBuildError);

/// The number of threads that a pool holds. A pool is given its threads
/// when it is built and keeps them for its life.
pub uninterp spec fn pool_width(pool: rayon::ThreadPool) -> nat;

/// Largest number of threads that every target gives a pool in full.
pub const FULL_WIDTH_THREADS: usize = 255;

/// What is known of the width of a pool that was asked to have `threads`
/// threads: it has that many where they are at most 255, and never more
/// than asked for nor, above 255, fewer than 255.
pub open spec fn width_for(threads: usize, width: nat) -> bool {
    &&& width <= threads
    &&& threads <= FULL_WIDTH_THREADS ==> width == threads
    &&& threads > FULL_WIDTH_THREADS ==> width >= FULL_WIDTH_THREADS
}

/// Calls `rayon::ThreadPoolBuilder::build` on a builder with the given
/// number of threads and stack size and with a panic handler that lets a
/// panic of a job end that job alone. The builder starts the lesser of
/// `threads` and rayon's own maximum, which is 255 on targets with 32-bit
/// pointers and 65535 on those with 64-bit pointers, or gives the error of
/// the thread that could not be started. Zero threads would leave the number
/// to the environment and are left out.
#[verifier::external_body]
fn build_pool(threads: usize, stack_size: usize) -> (built: Result<
    rayon::ThreadPool,
    rayon::ThreadPoolBuildError,
>)
    requires
        threads >= 1,
    ensures
        built matches Ok(pool) ==> width_for(threads, pool_width(pool)),
{
    rayon::ThreadPoolBuilder::new()
        .num_threads(threads)
        .stack_size(stack_size)
        .panic_handler(|_| {})
        .build()
}

/// `rayon::ThreadPool::current_num_threads` returns the number of threads
/// that the pool holds.
pub assume_specification[ rayon::ThreadPool::current_num_threads ](
    pool: &rayon::ThreadPool,
) -> (n: usize)
    ensures
        n == pool_width(*pool),
;

/// `tokio_rayon::AsyncRayonHandle`, on which the result of a job that runs
/// on a pool can be awaited. Nothing inside it is looked at.
#[verifier::external_type_specification]
#[verifier::external_body]
#[verifier::reject_recursive_types(T)]
pub struct ExAsyncRayonHandle<T>(tokio_rayon::AsyncRayonHandle<T>);

/// Calls `tokio_rayon::AsyncThreadPool::spawn_async`, which hands the job to
/// the pool and returns at once with the handle on which the job's result
/// can be awaited. When the job runs is up to the pool, so nothing is said
/// of the handle.
#[verifier::external_body]
fn spawn_job<F, R>(pool: &rayon::ThreadPool, job: F) -> (handle: tokio_rayon::AsyncRayonHandle<R>)
    where F: FnOnce() -> R + Send + 'static, R: Send + 'static
{
    tokio_rayon::AsyncThreadPool::spawn_async(pool, job)
}

/// Why the pools of a run could not be started.
#[derive(Clone, Copy, Debug, PartialEq, Eq, Structural)]
pub enum PoolError {
    /// The parallelism settings are refused; nothing was started.
    ConfigError(ConfigError),
    /// A thread could not be created; the pools built so far were shut down.
    ResourceError,
}

/// The place of one worker: a thread of a pool.
#[derive(Clone, Copy, Debug, PartialEq, Eq, Structural)]
pub struct WorkerSlot {
    /// Index of the pool.
    pub pool: usize,
    /// Index of the thread within the pool.
    pub thread: usize,
}

/// The slot of the worker with the given number, when workers are numbered
/// pool by pool.
pub open spec fn slot_at(threads_per_pool: usize, index: int) -> WorkerSlot {
    WorkerSlot {
        pool: (index / (threads_per_pool as int)) as usize,
        thread: (index % (threads_per_pool as int)) as usize,
    }
}

/// The number of the worker in a slot, when workers are numbered pool by
/// pool.
pub open spec fn index_of(threads_per_pool: usize, slot: WorkerSlot) -> int {
    slot.pool * threads_per_pool + slot.thread
}

/// The slots of all workers of a run, pool by pool.
pub open spec fn plan_of(pool_count: usize, threads_per_pool: usize) -> Seq<WorkerSlot> {
    Seq::new((pool_count * threads_per_pool) as nat, |index: int| slot_at(threads_per_pool, index))
}

/// The pools are `pool_count` in number and each has the width that
/// `threads_per_pool` calls for.
pub open spec fn pools_for(
    pools: Seq<rayon::ThreadPool>,
    pool_count: usize,
    threads_per_pool: usize,
) -> bool {
    &&& pools.len() == pool_count
    &&& forall|i: int|
        0 <= i < pools.len() ==> width_for(threads_per_pool, pool_width(#[trigger] pools[i]))
}

/// Lists the slots of all workers of a run, or says why the settings are
/// refused.
pub fn plan_workers(pool_count: usize, threads_per_pool: usize) -> (r: Result<
    Vec<WorkerSlot>,
    ConfigError,
>)
    ensures
        match parallelism_error(pool_count, threads_per_pool) {
            Some(e) => r matches Err(got) && got == e,
            None => r matches Ok(slots) && slots@ == plan_of(pool_count, threads_per_pool),
        },
{
    let total = match effective_parallelism(pool_count, threads_per_pool) {
        Ok(total) => total,
        Err(e) => {
            return Err(e);
        },
    };
    let mut slots: Vec<WorkerSlot> = Vec::new();
    let mut index: usize = 0;
    while index < total
        invariant
            index <= total,
            threads_per_pool >= 1,
            slots@ == Seq::new(index as nat, |i: int| slot_at(threads_per_pool, i)),
        decreases total - index,
    {
        slots.push(WorkerSlot { pool: index / threads_per_pool, thread: index % threads_per_pool });
        index = index + 1;
        assert(slots@ =~= Seq::new(index as nat, |i: int| slot_at(threads_per_pool, i)));
    }
    Ok(slots)
}

/// Takes what building one more pool gave. A pool that was built joins the
/// others. If it could not be built, the pools built so far are dropped,
/// which shuts their threads down, and the error is a `ResourceError`.
pub fn admit_pool(
    pools: &mut Vec<rayon::ThreadPool>,
    built: Result<rayon::ThreadPool, rayon::ThreadPoolBuildError>,
) -> (r: Result<(), PoolError>)
    ensures
        match built {
            Ok(pool) => r is Ok && final(pools)@ == old(pools)@.push(pool),
            Err(_) => r == Err::<(), PoolError>(PoolError::ResourceError) && final(pools)@.len()
                == 0,
        },
{
    match built {
        Ok(pool) => {
            pools.push(pool);
            Ok(())
        },
        Err(_) => {
            pools.clear();
            Err(PoolError::ResourceError)
        },
    }
}

/// The thread pools of a run together with the plan of its workers.
pub struct WorkerPool {
    /// The pools, one for each failure domain.
    pub pools: Vec<rayon::ThreadPool>,
    /// The slot of each worker to start, pool by pool.
    pub slots: Vec<WorkerSlot>,
}

impl WorkerPool {
    /// The pools and the plan are those of a run with the given settings.
    pub open spec fn started_for(self, pool_count: usize, threads_per_pool: usize) -> bool {
        &&& pools_for(self.pools@, pool_count, threads_per_pool)
        &&& self.slots@ == plan_of(pool_count, threads_per_pool)
    }

    /// Every slot of the plan names a pool that is there.
    pub open spec fn wf(self) -> bool {
        forall|i: int|
            0 <= i < self.slots@.len() ==> (#[trigger] self.slots@[i]).pool < self.pools@.len()
    }

    /// Checks the settings, then builds `pool_count` thread pools of
    /// `threads_per_pool` threads each and plans one worker for each thread.
    /// Settings that are refused start nothing. Whether a thread can be
    /// created is up to the system: if one cannot, the pools built so far
    /// are shut down and the error is a `ResourceError`.
    pub fn start(pool_count: usize, threads_per_pool: usize) -> (r: Result<WorkerPool, PoolError>)
        ensures
            match parallelism_error(pool_count, threads_per_pool) {
                Some(e) => r matches Err(got) && got == PoolError::ConfigError(e),
                None => match r {
                    Ok(started) => started.started_for(pool_count, threads_per_pool)
                        && started.wf(),
                    Err(e) => e == PoolError::ResourceError,
                },
            },
    {
        let slots = match plan_workers(pool_count, threads_per_pool) {
            Ok(slots) => slots,
            Err(e) => {
                return Err(PoolError::ConfigError(e));
            },
        };
        let mut pools: Vec<rayon::ThreadPool> = Vec::new();
        let mut built: usize = 0;
        while built < pool_count
            invariant
                built <= pool_count,
                parallelism_error(pool_count, threads_per_pool) is None,
                pools_for(pools@, built, threads_per_pool),
            decreases pool_count - built,
        {
            let pool = build_pool(threads_per_pool, THREAD_STACK_SIZE);
            match admit_pool(&mut pools, pool) {
                Ok(()) => {},
                Err(e) => {
                    return Err(e);
                },
            }
            built = built + 1;
        }
        proof {
            lemma_plan_has_one_slot_per_thread(pool_count, threads_per_pool);
        }
        Ok(WorkerPool { pools, slots })
    }

    /// Tells whether every slot of the plan names a pool that is there.
    pub fn is_wf(&self) -> (b: bool)
        ensures
            b == self.wf(),
    {
        let mut index: usize = 0;
        while index < self.slots.len()
            invariant
                index <= self.slots@.len(),
                forall|i: int| 0 <= i < index ==> (#[trigger] self.slots@[i]).pool < self.pools@.len(),
            decreases self.slots@.len() - index,
        {
            if self.slots[index].pool >= self.pools.len() {
                return false;
            }
            index = index + 1;
        }
        true
    }

    /// Starts one job for each slot of the plan, on the pool that the slot
    /// names, and returns the handles of the jobs in the order of the plan.
    /// `make_job` is called once for each slot, in that order, and gives the
    /// job to run there.
    pub fn spawn_workers<G, F, R>(&self, make_job: G) -> (handles: Vec<
        tokio_rayon::AsyncRayonHandle<R>,
    >)
        where
            G: Fn(WorkerSlot) -> F,
            F: FnOnce() -> R + Send + 'static,
            R: Send + 'static,
        requires
            self.wf(),
            forall|slot: WorkerSlot| make_job.requires((slot,)),
        ensures
            handles@.len() == self.slots@.len(),
    {
        let mut handles: Vec<tokio_rayon::AsyncRayonHandle<R>> = Vec::new();
        let mut index: usize = 0;
        while index < self.slots.len()
            invariant
                index <= self.slots@.len(),
                handles@.len() == index,
                self.wf(),
                forall|slot: WorkerSlot| make_job.requires((slot,)),
            decreases self.slots@.len() - index,
        {
            let slot = self.slots[index];
            let job = make_job(slot);
            handles.push(spawn_job(&self.pools[slot.pool], job));
            index = index + 1;
        }
        handles
    }

    /// The number of workers to start.
    pub fn parallelism(&self) -> (k: usize)
        ensures
            k == self.slots@.len(),
    {
        self.slots.len()
    }

    /// The number of threads of the pool with the given index, or `None`
    /// where there is no such pool.
    pub fn threads_in(&self, pool: usize) -> (n: Option<usize>)
        ensures
            match n {
                Some(width) => pool < self.pools@.len() && width == pool_width(
                    self.pools@[pool as int],
                ),
                None => pool >= self.pools@.len(),
            },
    {
        if pool < self.pools.len() {
            Some(self.pools[pool].current_num_threads())
        } else {
            None
        }
    }
}

/// Valid settings plan exactly `pool_count * threads_per_pool` workers, at
/// least one: every thread of every pool has its slot, at the place that
/// numbering pool by pool gives it, no slot names a pool or a thread that
/// does not exist, and no slot occurs twice.
pub proof fn lemma_plan_has_one_slot_per_thread(pool_count: usize, threads_per_pool: usize)
    requires
        parallelism_error(pool_count, threads_per_pool) is None,
    ensures
        plan_of(pool_count, threads_per_pool).len() == pool_count * threads_per_pool,
        plan_of(pool_count, threads_per_pool).len() >= 1,
        forall|i: int|
            0 <= i < plan_of(pool_count, threads_per_pool).len() ==> {
                let slot = #[trigger] plan_of(pool_count, threads_per_pool)[i];
                slot.pool < pool_count && slot.thread < threads_per_pool
            },
        forall|slot: WorkerSlot|
            slot.pool < pool_count && slot.thread < threads_per_pool ==> {
                &&& 0 <= #[trigger] index_of(threads_per_pool, slot) < plan_of(
                    pool_count,
                    threads_per_pool,
                ).len()
                &&& plan_of(pool_count, threads_per_pool)[index_of(threads_per_pool, slot)] == slot
            },
        forall|i: int, j: int|
            0 <= i < j < plan_of(pool_count, threads_per_pool).len() ==> #[trigger] plan_of(
                pool_count,
                threads_per_pool,
            )[i] != #[trigger] plan_of(pool_count, threads_per_pool)[j],
{
    let plan = plan_of(pool_count, threads_per_pool);
    let width = threads_per_pool as int;
    let total = pool_count * threads_per_pool;
    assert(total >= 1) by (nonlinear_arith)
        requires
            total == pool_count * threads_per_pool,
            pool_count >= 1,
            threads_per_pool >= 1,
    ;
    assert forall|i: int| 0 <= i < plan.len() implies {
        let slot = #[trigger] plan[i];
        slot.pool < pool_count && slot.thread < threads_per_pool
    } by {
        lemma_slot_in_range(pool_count, threads_per_pool, i);
    }
    assert forall|slot: WorkerSlot|
        slot.pool < pool_count && slot.thread < threads_per_pool implies {
        &&& 0 <= #[trigger] index_of(threads_per_pool, slot) < plan.len()
        &&& plan[index_of(threads_per_pool, slot)] == slot
    } by {
        let index = index_of(threads_per_pool, slot);
        let pool = slot.pool as int;
        let thread = slot.thread as int;
        assert(0 <= index < pool_count * width) by (nonlinear_arith)
            requires
                index == pool * width + thread,
                0 <= pool < pool_count,
                0 <= thread < width,
        ;
        assert(index == width * pool + thread) by (nonlinear_arith)
            requires
                index == pool * width + thread,
        ;
        lemma_fundamental_div_mod_converse(index, width, pool, thread);
    }
    assert forall|i: int, j: int| 0 <= i < j < plan.len() implies #[trigger] plan[i]
        != #[trigger] plan[j] by {
        lemma_slot_in_range(pool_count, threads_per_pool, i);
        lemma_slot_in_range(pool_count, threads_per_pool, j);
        lemma_fundamental_div_mod(i, width);
        lemma_fundamental_div_mod(j, width);
    }
}

proof fn lemma_slot_in_range(pool_count: usize, threads_per_pool: usize, index: int)
    requires
        parallelism_error(pool_count, threads_per_pool) is None,
        0 <= index < pool_count * threads_per_pool,
    ensures
        0 <= index / (threads_per_pool as int) < pool_count,
        0 <= index % (threads_per_pool as int) < threads_per_pool,
{
    let width = threads_per_pool as int;
    lemma_fundamental_div_mod(index, width);
    assert(0 <= index / width < pool_count) by (nonlinear_arith)
        requires
            index == width * (index / width) + index % width,
            0 <= index % width < width,
            0 <= index < pool_count * width,
            width >= 1,
    ;
}

} // verus!
