//! The mathematical model of the pool: its abstract state, the steps that
//! change it, and the invariant that every step keeps.

use crate::worker::Action;
use crate::worker::WorkerState;
use vstd::prelude::*;

verus! {

/// The abstract state of a pool.
pub struct PoolState<J> {
    /// Whether the submitting side of the queue is still open.
    pub open: bool,
    /// The jobs submitted and not yet handed to a worker, oldest first.
    pub queue: Seq<J>,
    /// The life-cycle state of each worker, by identity.
    pub workers: Seq<WorkerState>,
    /// For each worker, whether its thread handle is still in its slot.
    pub threads: Seq<bool>,
}

/// One step of a pool.
pub enum Step<J> {
    /// A caller submits a job.
    Submit(J),
    /// The worker with this identity asks for a job.
    Receive(int),
    /// The worker with this identity reports that its job has returned.
    Finish(int),
    /// The submitting side of the queue is closed.
    Close,
    /// The thread handle of the worker with this identity is taken, to be
    /// joined.
    Join(int),
}

impl<J> PoolState<J> {
    /// The state right after construction with `size` workers.
    pub open spec fn init(size: nat) -> Self {
        PoolState {
            open: true,
            queue: Seq::empty(),
            workers: Seq::new(size, |i: int| WorkerState::Spawned),
            threads: Seq::new(size, |i: int| true),
        }
    }

    /// The number of workers.
    pub open spec fn size(self) -> nat {
        self.workers.len()
    }

    /// `id` names a worker of this pool.
    pub open spec fn has_worker(self, id: int) -> bool {
        0 <= id < self.workers.len()
    }

    /// The state after `job` is put at the back of the queue.
    pub open spec fn submit(self, job: J) -> Self {
        PoolState { queue: self.queue.push(job), ..self }
    }

    /// Worker `id` may ask for a job.
    pub open spec fn can_receive(self, id: int) -> bool {
        self.has_worker(id) && self.workers[id].can_receive()
    }

    /// What a worker is told when it asks for a job: to run the oldest
    /// queued job if there is one; else to wait while the queue is open, and
    /// to leave once it is closed.
    pub open spec fn handout(self) -> Action<J> {
        if self.queue.len() > 0 {
            Action::Run(self.queue[0])
        } else if self.open {
            Action::Wait
        } else {
            Action::Exit
        }
    }

    /// The state after worker `id` has asked for a job.
    pub open spec fn receive(self, id: int) -> Self {
        if self.queue.len() > 0 {
            PoolState {
                queue: self.queue.skip(1),
                workers: self.workers.update(id, WorkerState::Executing),
                ..self
            }
        } else if self.open {
            PoolState { workers: self.workers.update(id, WorkerState::Polling), ..self }
        } else {
            PoolState { workers: self.workers.update(id, WorkerState::Terminated), ..self }
        }
    }

    /// Worker `id` is running a job.
    pub open spec fn can_finish(self, id: int) -> bool {
        self.has_worker(id) && self.workers[id] == WorkerState::Executing
    }

    /// The state after worker `id`'s job has returned: the worker polls
    /// again, whether the queue is open or not.
    pub open spec fn finish(self, id: int) -> Self {
        PoolState { workers: self.workers.update(id, WorkerState::Polling), ..self }
    }

    /// The state after the submitting side is closed: every waiting worker
    /// starts draining. Closing a closed pool changes nothing.
    pub open spec fn close(self) -> Self {
        if self.open {
            PoolState {
                open: false,
                workers: Seq::new(
                    self.workers.len(),
                    |i: int|
                        if self.workers[i] == WorkerState::Polling {
                            WorkerState::Draining
                        } else {
                            self.workers[i]
                        },
                ),
                ..self
            }
        } else {
            self
        }
    }

    /// Worker `id` is the next to be joined: the pool is closed, the handle
    /// is in its slot, and every worker before it has given its handle up.
    pub open spec fn can_join(self, id: int) -> bool {
        &&& !self.open
        &&& 0 <= id < self.threads.len()
        &&& self.threads[id]
        &&& forall|j: int| 0 <= j < id ==> !#[trigger] self.threads[j]
    }

    /// No worker holds a thread handle any longer.
    pub open spec fn all_joined(self) -> bool {
        forall|j: int| 0 <= j < self.threads.len() ==> !#[trigger] self.threads[j]
    }

    /// The state after the handle of worker `id` has been taken.
    pub open spec fn join(self, id: int) -> Self {
        PoolState { threads: self.threads.update(id, false), ..self }
    }

    /// Every worker has ended.
    pub open spec fn all_terminated(self) -> bool {
        forall|i: int|
            0 <= i < self.workers.len() ==> #[trigger] self.workers[i] == WorkerState::Terminated
    }

    /// Whether `step` may be taken in this state.
    pub open spec fn enabled(self, step: Step<J>) -> bool {
        match step {
            Step::Submit(_) => self.open,
            Step::Receive(id) => self.can_receive(id),
            Step::Finish(id) => self.can_finish(id),
            Step::Close => true,
            Step::Join(id) => self.can_join(id),
        }
    }

    /// The state after `step`.
    pub open spec fn apply(self, step: Step<J>) -> Self {
        match step {
            Step::Submit(job) => self.submit(job),
            Step::Receive(id) => self.receive(id),
            Step::Finish(id) => self.finish(id),
            Step::Close => self.close(),
            Step::Join(id) => self.join(id),
        }
    }

    /// What holds of every state that a pool can reach:
    /// the pool has a worker, and a slot for each; while it is open no
    /// worker is draining or has ended and every handle is in place; a
    /// worker ends only once the queue is empty; and the handles are given
    /// up in the order of the identities.
    pub open spec fn inv(self) -> bool {
        &&& self.workers.len() > 0
        &&& self.threads.len() == self.workers.len()
        &&& self.open ==> forall|i: int|
            0 <= i < self.workers.len() ==> {
                &&& #[trigger] self.workers[i] != WorkerState::Draining
                &&& self.workers[i] != WorkerState::Terminated
            }
        &&& self.open ==> forall|i: int| 0 <= i < self.threads.len() ==> #[trigger] self.threads[i]
        &&& (exists|i: int|
            0 <= i < self.workers.len() && #[trigger] self.workers[i] == WorkerState::Terminated)
            ==> self.queue.len() == 0
        &&& forall|i: int, j: int|
            0 <= i <= j < self.threads.len() && #[trigger] self.threads[i]
                ==> #[trigger] self.threads[j]
    }
}

/// The state after construction satisfies the invariant.
pub proof fn lemma_init_inv<J>(size: nat)
    requires
        size > 0,
    ensures
        PoolState::<J>::init(size).inv(),
        PoolState::<J>::init(size).size() == size,
{
}

/// Every enabled step keeps the invariant and the number of workers.
pub proof fn lemma_step_inv<J>(s: PoolState<J>, step: Step<J>)
    requires
        s.inv(),
        s.enabled(step),
    ensures
        s.apply(step).inv(),
        s.apply(step).size() == s.size(),
{
}

} // verus!
