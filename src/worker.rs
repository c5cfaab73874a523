use vstd::prelude::*;

use crate::message::Message;

verus! {

/// Where a worker stands: waiting on the queue, running a job, or stopped.
/// `Terminated` is final: no transition leaves it.
#[derive(Clone, Copy, Debug, PartialEq, Eq, Structural)]
pub enum WorkerState {
    Idle,
    Busy,
    Terminated,
}

/// One worker of a pool, known by its id.
#[derive(Clone, Copy, Debug, PartialEq, Eq, Structural)]
pub struct Worker {
    pub id: usize,
    pub state: WorkerState,
}

impl Worker {
    /// A fresh worker, waiting on the queue.
    pub fn new(id: usize) -> (w: Worker)
        ensures
            w.id == id,
            w.state == WorkerState::Idle,
    {
        Worker { id, state: WorkerState::Idle }
    }

    /// An idle worker takes one message: a job makes it busy and is handed
    /// back to be run, a terminate signal stops it.
    pub fn receive<J>(&mut self, msg: Message<J>) -> (job: Option<J>)
        requires
            old(self).state == WorkerState::Idle,
        ensures
            final(self).id == old(self).id,
            match msg {
                Message::NewJob(j) => job == Some(j) && final(self).state == WorkerState::Busy,
                Message::Terminate => job is None && final(self).state == WorkerState::Terminated,
            },
    {
        match msg {
            Message::NewJob(j) => {
                self.state = WorkerState::Busy;
                Some(j)
            },
            Message::Terminate => {
                self.state = WorkerState::Terminated;
                None
            },
        }
    }

    /// A busy worker has run its job to completion and waits again.
    pub fn job_done(&mut self)
        requires
            old(self).state == WorkerState::Busy,
        ensures
            final(self).id == old(self).id,
            final(self).state == WorkerState::Idle,
    {
        self.state = WorkerState::Idle;
    }
}

/// How many workers of `ws` are in state `s`.
pub open spec fn count_in(ws: Seq<Worker>, s: WorkerState) -> nat
    decreases ws.len(),
{
    if ws.len() == 0 {
        0
    } else {
        count_in(ws.drop_last(), s) + if ws.last().state == s { 1nat } else { 0nat }
    }
}

/// Every worker of `ws` is in state `s`.
pub open spec fn all_in(ws: Seq<Worker>, s: WorkerState) -> bool {
    forall|i: int| 0 <= i < ws.len() ==> (#[trigger] ws[i]).state == s
}

/// No more workers are in a state than there are workers; fewer, when one
/// of them is elsewhere; all of them, when none is.
pub proof fn lemma_count_bounds(ws: Seq<Worker>, s: WorkerState)
    ensures
        count_in(ws, s) <= ws.len(),
        (exists|i: int| 0 <= i < ws.len() && (#[trigger] ws[i]).state != s) ==> count_in(ws, s)
            < ws.len(),
        all_in(ws, s) ==> count_in(ws, s) == ws.len(),
    decreases ws.len(),
{
    if ws.len() > 0 {
        let init = ws.drop_last();
        lemma_count_bounds(init, s);
        assert(ws.last() == ws[ws.len() - 1]);
        if exists|i: int| 0 <= i < ws.len() && (#[trigger] ws[i]).state != s {
            let i = choose|i: int| 0 <= i < ws.len() && (#[trigger] ws[i]).state != s;
            if i < ws.len() - 1 {
                assert(init[i] == ws[i]);
            }
        }
        if all_in(ws, s) {
            assert forall|i: int| 0 <= i < init.len() implies (#[trigger] init[i]).state == s by {
                assert(init[i] == ws[i]);
            }
        }
    }
}

/// When every worker is in one state, none is in another.
pub proof fn lemma_count_none(ws: Seq<Worker>, s: WorkerState, t: WorkerState)
    requires
        all_in(ws, s),
        s != t,
    ensures
        count_in(ws, t) == 0,
    decreases ws.len(),
{
    if ws.len() > 0 {
        let init = ws.drop_last();
        assert forall|i: int| 0 <= i < init.len() implies (#[trigger] init[i]).state == s by {
            assert(init[i] == ws[i]);
        }
        lemma_count_none(init, s, t);
        assert(ws.last() == ws[ws.len() - 1]);
    }
}

/// Changing one worker moves the counts by at most one each way.
pub proof fn lemma_count_update(ws: Seq<Worker>, i: int, w: Worker, s: WorkerState)
    requires
        0 <= i < ws.len(),
    ensures
        count_in(ws.update(i, w), s) + (if ws[i].state == s { 1nat } else { 0nat }) == count_in(ws, s)
            + (if w.state == s { 1nat } else { 0nat }),
    decreases ws.len(),
{
    let us = ws.update(i, w);
    if i == ws.len() - 1 {
        assert(us.drop_last() =~= ws.drop_last());
    } else {
        lemma_count_update(ws.drop_last(), i, w, s);
        assert(us.drop_last() =~= ws.drop_last().update(i, w));
    }
}

} // verus!
