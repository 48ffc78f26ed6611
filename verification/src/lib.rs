//! A fixed-size worker pool, as a verified sequential state machine.
//!
//! The pool keeps a FIFO queue of jobs, an open/closed flag for the
//! submitting side, and one record per worker. A driver that owns real
//! threads runs this machine under a lock: it performs what each step
//! returns (run a job, wait, exit, join) and reports back.

pub mod guarantees;
pub mod history;
pub mod model;
pub mod pool;
pub mod worker;

pub use pool::ThreadPool;
pub use worker::Action;
pub use worker::Worker;
pub use worker::WorkerState;
