//! The coordination core of a fixed-size worker pool.
//!
//! A pool owns a fixed number of workers and one shared FIFO queue of
//! messages. Callers submit jobs; each idle worker claims the message at the
//! front of the queue and either runs the job it holds or, on a terminate
//! signal, stops for good. Shutting down enqueues one terminate signal per
//! worker behind every job already queued.
//!
//! The types here hold the pool's state and decide every transition; the
//! threads, the lock around the core and the waiting for new messages are
//! left to the caller, who performs what each transition asks for.
use vstd::prelude::*;

pub mod laws;
pub mod message;
pub mod pool;
pub mod worker;

pub use message::Message;
pub use pool::{Claim, PoolCore, PoolView};
pub use worker::{Worker, WorkerState};
