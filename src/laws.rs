//! Properties that hold of every well-formed pool state, and so at every
//! instant of a pool's life.
use vstd::prelude::*;

use crate::message::{jobs_of, lemma_all_terminates, terminates_in};
use crate::pool::PoolView;
use crate::worker::{all_in, count_in, lemma_count_bounds, lemma_count_none, WorkerState};

verus! {

/// A pool of `n` workers holds exactly `n` of them, and their ids are
/// distinct and lie in `0..n`.
pub proof fn worker_ids_distinct<J>(v: PoolView<J>)
    requires
        v.wf(),
    ensures
        forall|i: int| 0 <= i < v.workers.len() ==> (#[trigger] v.workers[i]).id < v.workers.len(),
        forall|i: int, j: int|
            0 <= i < v.workers.len() && 0 <= j < v.workers.len() && i != j ==> (#[trigger] v.workers[i]).id
                != (#[trigger] v.workers[j]).id,
{
}

/// No job is lost or handed out twice: the jobs submitted are, in order,
/// those already handed to a worker followed by those still queued. A job
/// still queued stands ahead of every terminate signal and no worker has
/// stopped yet, so the next claim hands out the oldest of them.
pub proof fn each_job_handed_out_once<J>(v: PoolView<J>)
    requires
        v.wf(),
    ensures
        v.submitted == v.handed_out + jobs_of(v.queue),
        jobs_of(v.queue).len() > 0 ==> v.queue[0] is NewJob,
        jobs_of(v.queue).len() > 0 ==> count_in(v.workers, WorkerState::Terminated) == 0,
{
    if jobs_of(v.queue).len() > 0 {
        if count_in(v.workers, WorkerState::Terminated) > 0 {
            lemma_all_terminates(v.queue);
        }
        if v.queue[0] is Terminate {
            assert forall|j: int| 0 <= j < v.queue.len() implies (#[trigger] v.queue[j]) is Terminate by {
                assert(v.queue[0] is Terminate);
            }
            lemma_all_terminates(v.queue);
        }
    }
}

/// At most as many jobs run at once as the pool has workers.
pub proof fn running_at_most_size<J>(v: PoolView<J>)
    requires
        v.wf(),
    ensures
        count_in(v.workers, WorkerState::Busy) <= v.workers.len(),
{
    lemma_count_bounds(v.workers, WorkerState::Busy);
}

/// Once every worker has stopped, shutdown has begun, nothing is queued and
/// nothing runs, and no worker is left to claim a job.
pub proof fn finished_pool_is_quiet<J>(v: PoolView<J>)
    requires
        v.wf(),
        all_in(v.workers, WorkerState::Terminated),
    ensures
        v.shutting_down,
        v.queue.len() == 0,
        count_in(v.workers, WorkerState::Busy) == 0,
        count_in(v.workers, WorkerState::Idle) == 0,
{
    lemma_count_bounds(v.workers, WorkerState::Terminated);
    lemma_count_none(v.workers, WorkerState::Terminated, WorkerState::Busy);
    lemma_count_none(v.workers, WorkerState::Terminated, WorkerState::Idle);
    lemma_all_terminates(v.queue);
}

/// During shutdown the queue holds exactly one terminate signal for each
/// worker that has not stopped, so while one has not, the queue is not empty
/// and an idle worker that claims is never told to wait. Each claim takes
/// one message off a queue that no longer grows, so shutdown ends once the
/// running jobs do.
pub proof fn shutdown_never_starves<J>(v: PoolView<J>)
    requires
        v.wf(),
        v.shutting_down,
    ensures
        terminates_in(v.queue) == v.workers.len() - count_in(v.workers, WorkerState::Terminated),
        !all_in(v.workers, WorkerState::Terminated) ==> v.queue.len() > 0,
{
    if !all_in(v.workers, WorkerState::Terminated) {
        assert(exists|i: int| 0 <= i < v.workers.len() && (#[trigger] v.workers[i]).state != WorkerState::Terminated);
        lemma_count_bounds(v.workers, WorkerState::Terminated);
        if v.queue.len() == 0 {
            assert(terminates_in(v.queue) == 0);
        }
    }
}

} // verus!
