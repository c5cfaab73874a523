use std::cell::RefCell;
use std::rc::Rc;

use thread_pool::{Claim, Message, PoolCore, Worker, WorkerState};

type Job = Box<dyn FnOnce()>;

/// Has worker `id` claim once; runs the job it gets, if any, and reports
/// it done. Returns what the claim said, with the job replaced by `()`.
fn step(pool: &mut PoolCore<Job>, id: usize) -> Claim<()> {
    match pool.claim(id) {
        Claim::Run(job) => {
            job();
            pool.finish(id);
            Claim::Run(())
        }
        Claim::Exit => Claim::Exit,
        Claim::Wait => Claim::Wait,
    }
}

fn recorder(log: &Rc<RefCell<Vec<u32>>>, value: u32) -> Job {
    let log = Rc::clone(log);
    Box::new(move || log.borrow_mut().push(value))
}

#[test]
fn new_creates_size_idle_workers_with_ids_in_order() {
    let pool = PoolCore::<u32>::new(5).unwrap();
    assert_eq!(pool.size(), 5);
    let ws = pool.workers();
    assert_eq!(ws.len(), 5);
    for (i, w) in ws.iter().enumerate() {
        assert_eq!(w.id, i);
        assert_eq!(w.state, WorkerState::Idle);
    }
    assert_eq!(pool.pending(), 0);
    assert!(!pool.is_shutting_down());
    assert!(!pool.is_finished());
    assert_eq!(pool.running(), 0);
}

#[test]
fn new_with_zero_size_gives_no_pool() {
    assert!(PoolCore::<u32>::new(0).is_none());
}

#[test]
fn ten_jobs_on_four_workers_each_run_once() {
    let log = Rc::new(RefCell::new(Vec::new()));
    let mut pool = PoolCore::<Job>::new(4).unwrap();
    for k in 0..10 {
        pool.submit(recorder(&log, k));
    }
    assert_eq!(pool.pending(), 10);
    let mut turn = 0;
    while pool.pending() > 0 {
        assert!(matches!(step(&mut pool, turn % 4), Claim::Run(())));
        turn += 1;
    }
    pool.shut_down();
    for id in 0..4 {
        assert!(matches!(step(&mut pool, id), Claim::Exit));
    }
    assert!(pool.is_finished());
    let mut seen = log.borrow().clone();
    assert_eq!(seen.len(), 10);
    seen.sort();
    assert_eq!(seen, (0..10).collect::<Vec<u32>>());
}

#[test]
fn single_worker_runs_jobs_in_submission_order() {
    let log = Rc::new(RefCell::new(Vec::new()));
    let mut pool = PoolCore::<Job>::new(1).unwrap();
    pool.submit(recorder(&log, 'A' as u32));
    pool.submit(recorder(&log, 'B' as u32));
    let first = match pool.claim(0) {
        Claim::Run(job) => job,
        _ => panic!("the first job should be handed out"),
    };
    assert_eq!(pool.running(), 1);
    assert_eq!(pool.workers()[0].state, WorkerState::Busy);
    first();
    pool.finish(0);
    assert!(matches!(step(&mut pool, 0), Claim::Run(())));
    assert_eq!(*log.borrow(), vec!['A' as u32, 'B' as u32]);
}

#[test]
fn shutdown_of_an_idle_pool_completes() {
    let mut pool = PoolCore::<Job>::new(2).unwrap();
    pool.shut_down();
    assert!(pool.is_shutting_down());
    assert_eq!(pool.pending(), 2);
    assert!(!pool.is_finished());
    assert!(matches!(step(&mut pool, 0), Claim::Exit));
    assert!(!pool.is_finished());
    assert!(matches!(step(&mut pool, 1), Claim::Exit));
    assert!(pool.is_finished());
    assert_eq!(pool.pending(), 0);
    assert_eq!(pool.running(), 0);
}

#[test]
fn claim_on_an_empty_queue_waits() {
    let mut pool = PoolCore::<Job>::new(3).unwrap();
    assert!(matches!(step(&mut pool, 2), Claim::Wait));
    assert_eq!(pool.workers()[2].state, WorkerState::Idle);
    assert_eq!(pool.pending(), 0);
}

#[test]
fn queued_jobs_run_before_any_worker_stops() {
    let log = Rc::new(RefCell::new(Vec::new()));
    let mut pool = PoolCore::<Job>::new(2).unwrap();
    for k in 0..3 {
        pool.submit(recorder(&log, k));
    }
    pool.shut_down();
    assert_eq!(pool.pending(), 5);
    assert!(matches!(step(&mut pool, 1), Claim::Run(())));
    assert!(matches!(step(&mut pool, 1), Claim::Run(())));
    assert!(matches!(step(&mut pool, 0), Claim::Run(())));
    assert!(matches!(step(&mut pool, 0), Claim::Exit));
    assert_eq!(pool.workers()[0].state, WorkerState::Terminated);
    assert!(matches!(step(&mut pool, 1), Claim::Exit));
    assert!(pool.is_finished());
    assert_eq!(*log.borrow(), vec![0, 1, 2]);
}

#[test]
fn running_never_exceeds_size() {
    let mut pool = PoolCore::<u32>::new(3).unwrap();
    for k in 0..5 {
        pool.submit(k);
    }
    let mut got = Vec::new();
    for id in 0..3 {
        match pool.claim(id) {
            Claim::Run(k) => got.push(k),
            _ => panic!("a queued job should be handed out"),
        }
    }
    assert_eq!(got, vec![0, 1, 2]);
    assert_eq!(pool.running(), 3);
    assert_eq!(pool.pending(), 2);
    pool.finish(1);
    assert_eq!(pool.running(), 2);
    assert!(matches!(pool.claim(1), Claim::Run(3)));
    assert_eq!(pool.running(), 3);
}

#[test]
fn worker_transitions() {
    let mut w = Worker::new(4);
    assert_eq!(w.id, 4);
    assert_eq!(w.state, WorkerState::Idle);
    assert_eq!(w.receive(Message::NewJob(9u32)), Some(9));
    assert_eq!(w.state, WorkerState::Busy);
    w.job_done();
    assert_eq!(w.state, WorkerState::Idle);
    assert_eq!(w.receive(Message::<u32>::Terminate), None);
    assert_eq!(w.state, WorkerState::Terminated);
    assert_eq!(w.id, 4);
}
