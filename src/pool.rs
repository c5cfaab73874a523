use vstd::prelude::*;

use std::collections::VecDeque;

use crate::message::{
    all_jobs, all_terminates, jobs_of, lemma_all_jobs, lemma_all_terminates, lemma_concat,
    lemma_front, terminates_in, Message,
};
use crate::worker::{
    all_in, count_in, lemma_count_bounds, lemma_count_none, lemma_count_update, Worker, WorkerState,
};

verus! {

/// What a worker that asks the pool for work is told to do.
pub enum Claim<J> {
    /// Run this job, then report back with `finish`.
    Run(J),
    /// Stop: the worker has taken its terminate signal.
    Exit,
    /// The queue is empty: wait until something is submitted or the pool
    /// shuts down, then ask again.
    Wait,
}

/// The abstract state of a pool.
pub struct PoolView<J> {
    /// The workers, indexed by id.
    pub workers: Seq<Worker>,
    /// The shared queue, front first.
    pub queue: Seq<Message<J>>,
    /// Whether shutdown has begun.
    pub shutting_down: bool,
    /// Every job ever submitted, in submission order.
    pub submitted: Seq<J>,
    /// Every job handed to a worker, in the order handed out.
    pub handed_out: Seq<J>,
}

impl<J> PoolView<J> {
    /// Once a terminate signal stands in the queue, only terminate signals
    /// follow it.
    pub open spec fn terminates_last(self) -> bool {
        forall|i: int, j: int|
            0 <= i <= j < self.queue.len() && (#[trigger] self.queue[i]) is Terminate
                ==> (#[trigger] self.queue[j]) is Terminate
    }

    /// The pool's invariant.
    pub open spec fn wf(self) -> bool {
        &&& self.workers.len() > 0
        &&& forall|i: int| 0 <= i < self.workers.len() ==> (#[trigger] self.workers[i]).id == i
        &&& self.submitted == self.handed_out + jobs_of(self.queue)
        &&& self.terminates_last()
        &&& !self.shutting_down ==> all_jobs(self.queue) && count_in(
            self.workers,
            WorkerState::Terminated,
        ) == 0
        &&& self.shutting_down ==> terminates_in(self.queue) + count_in(
            self.workers,
            WorkerState::Terminated,
        ) == self.workers.len()
        &&& count_in(self.workers, WorkerState::Terminated) > 0 ==> all_terminates(self.queue)
    }
}

/// A pool's workers, its shared queue and its lifecycle, with every
/// transition that the worker threads and the owner make on it.
pub struct PoolCore<J> {
    workers: Vec<Worker>,
    queue: VecDeque<Message<J>>,
    shutting_down: bool,
    submitted: Ghost<Seq<J>>,
    handed_out: Ghost<Seq<J>>,
}

impl<J> View for PoolCore<J> {
    type V = PoolView<J>;

    closed spec fn view(&self) -> PoolView<J> {
        PoolView {
            workers: self.workers@,
            queue: self.queue@,
            shutting_down: self.shutting_down,
            submitted: self.submitted@,
            handed_out: self.handed_out@,
        }
    }
}

impl<J> PoolCore<J> {
    /// A pool of `size` idle workers, with ids `0..size`, and an empty
    /// queue; `None` when `size` is zero, since a pool needs a worker.
    pub fn new(size: usize) -> (r: Option<PoolCore<J>>)
        ensures
            r is None <==> size == 0,
            r matches Some(p) ==> {
                &&& p@.wf()
                &&& p@.workers.len() == size
                &&& forall|i: int|
                    0 <= i < size ==> (#[trigger] p@.workers[i]) == (Worker {
                        id: i as usize,
                        state: WorkerState::Idle,
                    })
                &&& p@.queue.len() == 0
                &&& !p@.shutting_down
                &&& p@.submitted.len() == 0
                &&& p@.handed_out.len() == 0
            },
    {
        if size == 0 {
            return None;
        }
        let mut workers: Vec<Worker> = Vec::new();
        let mut id: usize = 0;
        while id < size
            invariant
                id <= size,
                workers@.len() == id,
                forall|i: int|
                    0 <= i < id ==> (#[trigger] workers@[i]) == (Worker {
                        id: i as usize,
                        state: WorkerState::Idle,
                    }),
            decreases size - id,
        {
            workers.push(Worker::new(id));
            id += 1;
        }
        let pool = PoolCore {
            workers,
            queue: VecDeque::new(),
            shutting_down: false,
            submitted: Ghost(Seq::empty()),
            handed_out: Ghost(Seq::empty()),
        };
        proof {
            lemma_count_none(pool@.workers, WorkerState::Idle, WorkerState::Terminated);
            assert(pool@.handed_out + jobs_of(pool@.queue) =~= pool@.submitted);
        }
        Some(pool)
    }

    /// Enqueues `job` behind every message already queued. Submitting after
    /// shutdown has begun is a usage error.
    pub fn submit(&mut self, job: J)
        requires
            old(self)@.wf(),
            !old(self)@.shutting_down,
        ensures
            final(self)@.wf(),
            final(self)@.queue == old(self)@.queue.push(Message::NewJob(job)),
            final(self)@.submitted == old(self)@.submitted.push(job),
            final(self)@.workers == old(self)@.workers,
            final(self)@.shutting_down == old(self)@.shutting_down,
            final(self)@.handed_out == old(self)@.handed_out,
    {
        let ghost q0 = self.queue@;
        let ghost v0 = self@;
        self.submitted = Ghost(self.submitted@.push(job));
        self.queue.push_back(Message::NewJob(job));
        proof {
            let q = self.queue@;
            assert(q.drop_last() =~= q0);
            assert(q.last() == Message::NewJob(job));
            assert(self@.submitted =~= self@.handed_out + jobs_of(q));
            assert forall|i: int| 0 <= i < q.len() implies (#[trigger] q[i]) is NewJob by {
                if i < q0.len() {
                    assert(q[i] == q0[i]);
                }
            }
        }
    }

    /// Worker `id`, idle, asks for work: it takes the message at the front
    /// of the queue, or is told to wait when the queue is empty. The
    /// message taken leaves the queue, so no other worker sees it.
    pub fn claim(&mut self, id: usize) -> (c: Claim<J>)
        requires
            old(self)@.wf(),
            id < old(self)@.workers.len(),
            old(self)@.workers[id as int].state == WorkerState::Idle,
        ensures
            final(self)@.wf(),
            final(self)@.shutting_down == old(self)@.shutting_down,
            final(self)@.submitted == old(self)@.submitted,
            old(self)@.queue.len() == 0 ==> c is Wait && final(self)@ == old(self)@,
            old(self)@.queue.len() > 0 ==> final(self)@.queue == old(self)@.queue.drop_first(),
            old(self)@.queue.len() > 0 ==> match old(self)@.queue[0] {
                Message::NewJob(j) => {
                    &&& c == Claim::Run(j)
                    &&& final(self)@.workers == old(self)@.workers.update(
                        id as int,
                        (Worker { id, state: WorkerState::Busy }),
                    )
                    &&& final(self)@.handed_out == old(self)@.handed_out.push(j)
                },
                Message::Terminate => {
                    &&& c is Exit
                    &&& final(self)@.workers == old(self)@.workers.update(
                        id as int,
                        (Worker { id, state: WorkerState::Terminated }),
                    )
                    &&& final(self)@.handed_out == old(self)@.handed_out
                },
            },
    {
        let ghost v0 = self@;
        match self.queue.pop_front() {
            None => Claim::Wait,
            Some(msg) => {
                proof {
                    lemma_front(v0.queue);
                }
                let mut w = self.workers[id];
                let job = w.receive(msg);
                self.workers.set(id, w);
                proof {
                    lemma_count_update(v0.workers, id as int, w, WorkerState::Terminated);
                    let q = self@.queue;
                    assert forall|i: int, j: int|
                        0 <= i <= j < q.len() && (#[trigger] q[i]) is Terminate implies (#[trigger] q[j]) is Terminate by {
                        assert(q[i] == v0.queue[i + 1]);
                        assert(q[j] == v0.queue[j + 1]);
                    }
                    assert forall|i: int| 0 <= i < q.len() implies (#[trigger] q[i]) == v0.queue[i + 1] by {}
                    if v0.queue[0] is Terminate {
                        assert forall|i: int| 0 <= i < q.len() implies (#[trigger] q[i]) is Terminate by {
                            assert(v0.queue[i + 1] is Terminate);
                        }
                    }
                    assert(self@.workers =~= v0.workers.update(id as int, w));
                }
                match job {
                    Some(j) => {
                        self.handed_out = Ghost(self.handed_out@.push(j));
                        proof {
                            assert(self@.submitted =~= self@.handed_out + jobs_of(self@.queue));
                        }
                        Claim::Run(j)
                    },
                    None => Claim::Exit,
                }
            },
        }
    }

    /// Worker `id` has run its job to completion and is idle again.
    pub fn finish(&mut self, id: usize)
        requires
            old(self)@.wf(),
            id < old(self)@.workers.len(),
            old(self)@.workers[id as int].state == WorkerState::Busy,
        ensures
            final(self)@.wf(),
            final(self)@.workers == old(self)@.workers.update(
                id as int,
                (Worker { id, state: WorkerState::Idle }),
            ),
            final(self)@.queue == old(self)@.queue,
            final(self)@.shutting_down == old(self)@.shutting_down,
            final(self)@.submitted == old(self)@.submitted,
            final(self)@.handed_out == old(self)@.handed_out,
    {
        let ghost v0 = self@;
        let mut w = self.workers[id];
        w.job_done();
        self.workers.set(id, w);
        proof {
            lemma_count_update(v0.workers, id as int, w, WorkerState::Terminated);
            assert(self@.workers =~= v0.workers.update(id as int, w));
        }
    }

    /// Begins shutdown: enqueues one terminate signal per worker, behind
    /// every job already queued, so that each worker takes exactly one once
    /// the jobs ahead of it are handed out.
    pub fn shut_down(&mut self)
        requires
            old(self)@.wf(),
            !old(self)@.shutting_down,
        ensures
            final(self)@.wf(),
            final(self)@.shutting_down,
            final(self)@.queue == old(self)@.queue + Seq::new(
                old(self)@.workers.len(),
                |i: int| Message::<J>::Terminate,
            ),
            final(self)@.workers == old(self)@.workers,
            final(self)@.submitted == old(self)@.submitted,
            final(self)@.handed_out == old(self)@.handed_out,
    {
        let ghost v0 = self@;
        let n = self.workers.len();
        let mut k: usize = 0;
        while k < n
            invariant
                k <= n,
                n == v0.workers.len(),
                self@.workers == v0.workers,
                !self@.shutting_down,
                self@.submitted == v0.submitted,
                self@.handed_out == v0.handed_out,
                self@.queue == v0.queue + Seq::new(k as nat, |i: int| Message::<J>::Terminate),
            decreases n - k,
        {
            let ghost q = self.queue@;
            self.queue.push_back(Message::Terminate);
            proof {
                assert(v0.queue + Seq::new((k + 1) as nat, |i: int| Message::<J>::Terminate)
                    =~= q.push(Message::Terminate));
            }
            k += 1;
        }
        self.shutting_down = true;
        proof {
            let tail = Seq::new(n as nat, |i: int| Message::<J>::Terminate);
            let q = self@.queue;
            lemma_concat(v0.queue, tail);
            lemma_all_terminates(tail);
            lemma_all_jobs(v0.queue);
            assert(self@.submitted =~= self@.handed_out + jobs_of(q));
            assert forall|i: int, j: int|
                0 <= i <= j < q.len() && (#[trigger] q[i]) is Terminate implies (#[trigger] q[j]) is Terminate by {
                if i < v0.queue.len() {
                    assert(q[i] == v0.queue[i]);
                }
            }
        }
    }

    /// Whether every worker has stopped, which is when shutdown is complete.
    pub fn is_finished(&self) -> (b: bool)
        ensures
            b == all_in(self@.workers, WorkerState::Terminated),
    {
        let n = self.workers.len();
        let mut i: usize = 0;
        while i < n
            invariant
                i <= n,
                n == self@.workers.len(),
                forall|k: int| 0 <= k < i ==> (#[trigger] self@.workers[k]).state == WorkerState::Terminated,
            decreases n - i,
        {
            if self.workers[i].state != WorkerState::Terminated {
                return false;
            }
            i += 1;
        }
        true
    }

    /// How many workers are running a job right now.
    pub fn running(&self) -> (n: usize)
        ensures
            n == count_in(self@.workers, WorkerState::Busy),
    {
        let ws = &self.workers;
        let mut busy: usize = 0;
        let mut i: usize = 0;
        while i < ws.len()
            invariant
                i <= ws@.len(),
                ws@ == self@.workers,
                busy == count_in(ws@.take(i as int), WorkerState::Busy),
            decreases ws@.len() - i,
        {
            proof {
                assert(ws@.take(i + 1).drop_last() =~= ws@.take(i as int));
                lemma_count_bounds(ws@.take(i as int), WorkerState::Busy);
            }
            if ws[i].state == WorkerState::Busy {
                busy += 1;
            }
            i += 1;
        }
        proof {
            assert(ws@.take(ws@.len() as int) =~= ws@);
        }
        busy
    }

    /// The number of workers, fixed at construction.
    pub fn size(&self) -> (n: usize)
        ensures
            n == self@.workers.len(),
    {
        self.workers.len()
    }

    /// The workers, indexed by id.
    pub fn workers(&self) -> (ws: &[Worker])
        ensures
            ws@ == self@.workers,
    {
        self.workers.as_slice()
    }

    /// Whether shutdown has begun.
    pub fn is_shutting_down(&self) -> (b: bool)
        ensures
            b == self@.shutting_down,
    {
        self.shutting_down
    }

    /// The number of messages waiting in the queue.
    pub fn pending(&self) -> (n: usize)
        ensures
            n == self@.queue.len(),
    {
        self.queue.len()
    }
}

} // verus!
