//! One worker of the pool: its identity, where it stands in its life cycle,
//! and whether its thread handle is still held.

use vstd::prelude::*;

verus! {

/// Where a worker stands in its life cycle.
#[derive(Clone, Copy, Debug, PartialEq, Eq, Structural)]
pub enum WorkerState {
    /// Created; has not asked for a job yet.
    Spawned,
    /// Asked for a job while the queue was empty and open; waiting.
    Polling,
    /// Running a job.
    Executing,
    /// Was waiting when the queue was closed; has not yet seen it drained.
    Draining,
    /// Saw the queue closed and empty; its loop has ended.
    Terminated,
}

impl WorkerState {
    /// A worker may ask for a job unless it is running one or has ended.
    pub open spec fn can_receive(self) -> bool {
        self == WorkerState::Spawned || self == WorkerState::Polling || self
            == WorkerState::Draining
    }

    /// The edges of the life cycle: `self` may change into `to` in one step.
    pub open spec fn may_become(self, to: WorkerState) -> bool {
        match self {
            WorkerState::Spawned => to == WorkerState::Polling || to == WorkerState::Executing
                || to == WorkerState::Terminated,
            WorkerState::Polling => to == WorkerState::Executing || to == WorkerState::Draining
                || to == WorkerState::Terminated,
            WorkerState::Executing => to == WorkerState::Polling,
            WorkerState::Draining => to == WorkerState::Executing || to
                == WorkerState::Terminated,
            WorkerState::Terminated => false,
        }
    }
}

/// What a worker does after asking the pool for a job.
#[derive(Debug, PartialEq, Eq)]
pub enum Action<J> {
    /// Run this job to completion, and report back when it is done.
    Run(J),
    /// Nothing is queued and the queue is open: wait, and ask again.
    Wait,
    /// The queue is closed and empty: leave the loop.
    Exit,
}

/// A worker record: a small integer identity, the life-cycle state, and the
/// slot for the handle of its thread.
#[derive(Clone, Copy, Debug)]
pub struct Worker {
    id: usize,
    state: WorkerState,
    holds_thread: bool,
}

impl Worker {
    /// The worker's identity.
    pub closed spec fn id_spec(&self) -> usize {
        self.id
    }

    /// The worker's life-cycle state.
    pub closed spec fn state_spec(&self) -> WorkerState {
        self.state
    }

    /// Whether the handle of the worker's thread is still in its slot.
    pub closed spec fn has_thread_spec(&self) -> bool {
        self.holds_thread
    }

    /// A fresh worker: spawned, with its thread handle in place.
    pub fn new(id: usize) -> (w: Worker)
        ensures
            w.id_spec() == id,
            w.state_spec() == WorkerState::Spawned,
            w.has_thread_spec(),
    {
        Worker { id, state: WorkerState::Spawned, holds_thread: true }
    }

    #[verifier::when_used_as_spec(id_spec)]
    pub fn id(&self) -> (r: usize)
        ensures
            r == self.id_spec(),
    {
        self.id
    }

    #[verifier::when_used_as_spec(state_spec)]
    pub fn state(&self) -> (r: WorkerState)
        ensures
            r == self.state_spec(),
    {
        self.state
    }

    #[verifier::when_used_as_spec(has_thread_spec)]
    pub fn has_thread(&self) -> (r: bool)
        ensures
            r == self.has_thread_spec(),
    {
        self.holds_thread
    }

    /// Moves the worker to `state`, leaving identity and handle slot alone.
    pub(crate) fn set_state(&mut self, state: WorkerState)
        ensures
            final(self).id() == old(self).id(),
            final(self).state() == state,
            final(self).has_thread() == old(self).has_thread(),
    {
        self.state = state;
    }

    /// Takes the thread handle out of its slot. Returns whether it was there;
    /// afterwards the slot is empty, so a handle is handed out at most once.
    pub fn take_thread(&mut self) -> (taken: bool)
        ensures
            taken == old(self).has_thread(),
            !final(self).has_thread(),
            final(self).id() == old(self).id(),
            final(self).state() == old(self).state(),
    {
        let taken = self.holds_thread;
        self.holds_thread = false;
        taken
    }
}

} // verus!
