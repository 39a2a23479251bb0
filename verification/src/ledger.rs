//! The shared attempt counter held against the workers' own tallies.
//!
//! The workers of a run make their attempts in an order that nobody fixes.
//! Whatever that order is, the shared counter goes up by one each time a
//! worker is told to count, so at every moment it stands at the sum of what
//! the workers have counted themselves.

use vstd::prelude::*;
use crate::policy::TerminationPolicy;
use crate::worker::{AttemptEvent, WorkerState};

verus! {

/// One attempt of a run: the worker that made it, by its number, and the
/// attempt as that worker saw it.
pub struct RunStep {
    pub worker: nat,
    pub event: AttemptEvent,
}

/// The sum of the attempts that the workers have counted.
pub open spec fn total_counted(workers: Seq<WorkerState>) -> nat
    decreases workers.len(),
{
    if workers.len() == 0 {
        0
    } else {
        total_counted(workers.drop_last()) + workers.last().counted as nat
    }
}

/// The states of the workers after the steps of a run, taken in the order
/// in which they happened. A step of a worker that does not exist changes
/// nothing.
pub open spec fn workers_after(
    workers: Seq<WorkerState>,
    policy: TerminationPolicy,
    acceptance_target: u64,
    steps: Seq<RunStep>,
) -> Seq<WorkerState>
    decreases steps.len(),
{
    if steps.len() == 0 {
        workers
    } else {
        let before = workers_after(workers, policy, acceptance_target, steps.drop_last());
        let step = steps.last();
        if step.worker < before.len() {
            before.update(
                step.worker as int,
                before[step.worker as int].after_attempt(policy, acceptance_target, step.event),
            )
        } else {
            before
        }
    }
}

/// The shared counter after the steps of a run: it starts at `start` and
/// goes up by one for each step at which the worker is told to count.
pub open spec fn shared_count_after(
    start: nat,
    workers: Seq<WorkerState>,
    policy: TerminationPolicy,
    acceptance_target: u64,
    steps: Seq<RunStep>,
) -> nat
    decreases steps.len(),
{
    if steps.len() == 0 {
        start
    } else {
        let before = workers_after(workers, policy, acceptance_target, steps.drop_last());
        let earlier = shared_count_after(
            start,
            workers,
            policy,
            acceptance_target,
            steps.drop_last(),
        );
        let step = steps.last();
        if step.worker < before.len() && before[step.worker as int].actions_for(
            policy,
            acceptance_target,
            step.event,
        ).count {
            (earlier + 1) as nat
        } else {
            earlier
        }
    }
}

/// Every worker is well-formed and has room in its tallies for `room` more
/// attempts.
pub open spec fn all_have_room(workers: Seq<WorkerState>, room: nat) -> bool {
    forall|i: int|
        0 <= i < workers.len() ==> (#[trigger] workers[i]).wf() && workers[i].attempts + room
            <= u64::MAX
}

proof fn lemma_total_counted_update(workers: Seq<WorkerState>, i: int, state: WorkerState)
    requires
        0 <= i < workers.len(),
    ensures
        total_counted(workers.update(i, state)) + workers[i].counted == total_counted(workers)
            + state.counted,
    decreases workers.len(),
{
    let updated = workers.update(i, state);
    if i == workers.len() - 1 {
        assert(updated.drop_last() =~= workers.drop_last());
    } else {
        lemma_total_counted_update(workers.drop_last(), i, state);
        assert(updated.drop_last() =~= workers.drop_last().update(i, state));
    }
}

/// In whatever order the workers of a run make their attempts, the shared
/// counter never goes down, and what it has gained since the start is the
/// sum of what the workers have counted themselves since then: no attempt
/// is counted twice and none is lost.
pub proof fn lemma_shared_count_is_sum_of_tallies(
    start: nat,
    workers: Seq<WorkerState>,
    policy: TerminationPolicy,
    acceptance_target: u64,
    steps: Seq<RunStep>,
)
    requires
        all_have_room(workers, steps.len()),
    ensures
        workers_after(workers, policy, acceptance_target, steps).len() == workers.len(),
        all_have_room(workers_after(workers, policy, acceptance_target, steps), 0),
        shared_count_after(start, workers, policy, acceptance_target, steps) >= start,
        shared_count_after(start, workers, policy, acceptance_target, steps) + total_counted(
            workers,
        ) == start + total_counted(workers_after(workers, policy, acceptance_target, steps)),
        steps.len() > 0 ==> shared_count_after(start, workers, policy, acceptance_target, steps)
            >= shared_count_after(start, workers, policy, acceptance_target, steps.drop_last()),
    decreases steps.len(),
{
    if steps.len() > 0 {
        let earlier = steps.drop_last();
        lemma_room_left(workers, policy, acceptance_target, earlier, 1);
        lemma_shared_count_is_sum_of_tallies(start, workers, policy, acceptance_target, earlier);
        let before = workers_after(workers, policy, acceptance_target, earlier);
        let step = steps.last();
        if step.worker < before.len() {
            let i = step.worker as int;
            let next = before[i].after_attempt(policy, acceptance_target, step.event);
            assert(before[i].wf());
            lemma_total_counted_update(before, i, next);
            let after = before.update(i, next);
            assert forall|j: int| 0 <= j < after.len() implies (#[trigger] after[j]).wf()
                && after[j].attempts + 0 <= u64::MAX by {
                if j != i {
                    assert(after[j] == before[j]);
                }
            }
        }
    }
}

proof fn lemma_room_left(
    workers: Seq<WorkerState>,
    policy: TerminationPolicy,
    acceptance_target: u64,
    steps: Seq<RunStep>,
    room: nat,
)
    requires
        all_have_room(workers, steps.len() + room),
    ensures
        workers_after(workers, policy, acceptance_target, steps).len() == workers.len(),
        all_have_room(workers_after(workers, policy, acceptance_target, steps), room),
    decreases steps.len(),
{
    if steps.len() > 0 {
        let earlier = steps.drop_last();
        lemma_room_left(workers, policy, acceptance_target, earlier, room + 1);
        let before = workers_after(workers, policy, acceptance_target, earlier);
        let step = steps.last();
        if step.worker < before.len() {
            let i = step.worker as int;
            let next = before[i].after_attempt(policy, acceptance_target, step.event);
            assert(before[i].wf() && before[i].attempts + (room + 1) <= u64::MAX);
            let after = before.update(i, next);
            assert forall|j: int| 0 <= j < after.len() implies (#[trigger] after[j]).wf()
                && after[j].attempts + room <= u64::MAX by {
                if j != i {
                    assert(after[j] == before[j]);
                    assert(before[j].wf() && before[j].attempts + (room + 1) <= u64::MAX);
                }
            }
        } else {
            assert forall|j: int| 0 <= j < before.len() implies (#[trigger] before[j]).wf()
                && before[j].attempts + room <= u64::MAX by {
                assert(before[j].wf() && before[j].attempts + (room + 1) <= u64::MAX);
            }
        }
    } else {
        assert forall|j: int| 0 <= j < workers.len() implies (#[trigger] workers[j]).wf()
            && workers[j].attempts + room <= u64::MAX by {
            assert(workers[j].wf() && workers[j].attempts + (0 + room) <= u64::MAX);
        }
    }
}

} // verus!
