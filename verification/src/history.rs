//! What has happened to the jobs of a pool: a record kept beside the state,
//! the runs of a pool from its construction, and what holds of every run.
//!
//! Jobs carry no identity of their own. The record names a job by its
//! ticket: its position in the order of submission.

use crate::model::PoolState;
use crate::model::Step;
use crate::worker::WorkerState;
use vstd::prelude::*;

verus! {

/// The record of a pool's jobs.
pub struct History<J> {
    /// Every job submitted so far, in the order of submission.
    pub submitted: Seq<J>,
    /// Every job handed to a worker so far, in the order of the handing out.
    pub received: Seq<J>,
    /// For each job handed out, the worker that took it.
    pub receivers: Seq<int>,
    /// For each worker that is running a job, the ticket of that job.
    pub running: Map<int, int>,
    /// The tickets of the jobs that have returned.
    pub completed: Set<int>,
}

impl<J> History<J> {
    /// The record of a pool that has just been constructed.
    pub open spec fn empty() -> Self {
        History {
            submitted: Seq::empty(),
            received: Seq::empty(),
            receivers: Seq::empty(),
            running: Map::empty(),
            completed: Set::empty(),
        }
    }

    /// The record after `step` is taken in state `s`.
    pub open spec fn record(self, s: PoolState<J>, step: Step<J>) -> Self {
        match step {
            Step::Submit(job) => History { submitted: self.submitted.push(job), ..self },
            Step::Receive(id) => if s.queue.len() > 0 {
                History {
                    received: self.received.push(s.queue[0]),
                    receivers: self.receivers.push(id),
                    running: self.running.insert(id, self.received.len() as int),
                    ..self
                }
            } else {
                self
            },
            Step::Finish(id) => History {
                running: self.running.remove(id),
                completed: self.completed.insert(self.running[id]),
                ..self
            },
            Step::Close => self,
            Step::Join(_) => self,
        }
    }

    /// Ticket `t` is in flight: the worker that took it is still running it.
    pub open spec fn in_flight(self, t: int) -> bool {
        &&& 0 <= t < self.receivers.len()
        &&& self.running.dom().contains(self.receivers[t])
        &&& self.running[self.receivers[t]] == t
    }

    /// The record agrees with state `s`:
    /// the jobs submitted are those handed out followed by those queued;
    /// each job handed out went to a worker of the pool; the workers with a
    /// running job are those that are executing; and a job handed out has
    /// either returned or is in flight on the worker that took it, never
    /// both.
    pub open spec fn agrees_with(self, s: PoolState<J>) -> bool {
        &&& self.submitted =~= self.received + s.queue
        &&& self.receivers.len() == self.received.len()
        &&& forall|t: int|
            0 <= t < self.receivers.len() ==> s.has_worker(#[trigger] self.receivers[t])
        &&& forall|i: int| #[trigger]
            self.running.dom().contains(i) <==> s.has_worker(i) && s.workers[i]
                == WorkerState::Executing
        &&& forall|i: int| #[trigger]
            self.running.dom().contains(i) ==> self.in_flight(self.running[i])
                && self.receivers[self.running[i]] == i
        &&& forall|t: int| #[trigger]
            self.completed.contains(t) ==> 0 <= t < self.received.len() && !self.in_flight(t)
        &&& forall|t: int|
            0 <= t < self.received.len() && !self.completed.contains(t)
                ==> #[trigger] self.in_flight(t)
    }
}

/// A pool together with the record of its jobs.
pub struct Run<J> {
    pub state: PoolState<J>,
    pub history: History<J>,
}

impl<J> Run<J> {
    /// A pool of `size` workers after `steps`, taken in order from its
    /// construction.
    pub open spec fn replay(size: nat, steps: Seq<Step<J>>) -> Self
        decreases steps.len(),
    {
        if steps.len() == 0 {
            Run { state: PoolState::init(size), history: History::empty() }
        } else {
            let before = Self::replay(size, steps.drop_last());
            Run {
                state: before.state.apply(steps.last()),
                history: before.history.record(before.state, steps.last()),
            }
        }
    }

    /// Each of `steps` is enabled in the state in which it is taken.
    pub open spec fn admissible(size: nat, steps: Seq<Step<J>>) -> bool
        decreases steps.len(),
    {
        steps.len() > 0 ==> {
            &&& Self::admissible(size, steps.drop_last())
            &&& Self::replay(size, steps.drop_last()).state.enabled(steps.last())
        }
    }
}

/// A run of `steps.push(step)` is the run of `steps` with `step` taken at
/// its end.
pub proof fn lemma_replay_push<J>(size: nat, steps: Seq<Step<J>>, step: Step<J>)
    ensures
        Run::replay(size, steps.push(step)).state == Run::replay(size, steps).state.apply(step),
        Run::replay(size, steps.push(step)).history == Run::replay(size, steps).history.record(
            Run::replay(size, steps).state,
            step,
        ),
        Run::admissible(size, steps.push(step)) <==> Run::admissible(size, steps) && Run::replay(
            size,
            steps,
        ).state.enabled(step),
{
    assert(steps.push(step).drop_last() =~= steps);
    assert(steps.push(step).last() == step);
}

/// An enabled step keeps the record in agreement with the state.
pub proof fn lemma_step_agrees<J>(s: PoolState<J>, h: History<J>, step: Step<J>)
    requires
        s.inv(),
        h.agrees_with(s),
        s.enabled(step),
    ensures
        h.record(s, step).agrees_with(s.apply(step)),
{
    let s2 = s.apply(step);
    let h2 = h.record(s, step);
    match step {
        Step::Submit(job) => {
            assert(h2.submitted =~= h2.received + s2.queue);
            assert forall|t: int|
                0 <= t < h2.received.len() && !h2.completed.contains(t)
                    implies #[trigger] h2.in_flight(t) by {
                assert(h.in_flight(t));
            }
        },
        Step::Receive(id) => {
            if s.queue.len() > 0 {
                let fresh = h.received.len() as int;
                assert(h2.submitted =~= h2.received + s2.queue);
                assert(!h.running.dom().contains(id));
                assert forall|i: int| #[trigger]
                    h2.running.dom().contains(i) implies h2.in_flight(h2.running[i])
                    && h2.receivers[h2.running[i]] == i by {
                    if i != id {
                        assert(h.in_flight(h.running[i]));
                    }
                }
                assert forall|t: int| #[trigger] h2.completed.contains(t) implies 0 <= t
                    < h2.received.len() && !h2.in_flight(t) by {
                    assert(!h.in_flight(t));
                }
                assert forall|t: int|
                    0 <= t < h2.received.len() && !h2.completed.contains(t)
                        implies #[trigger] h2.in_flight(t) by {
                    if t != fresh {
                        assert(h.in_flight(t));
                    }
                }
            }
        },
        Step::Finish(id) => {
            let done = h.running[id];
            assert(h.running.dom().contains(id));
            assert(h.in_flight(done));
            assert forall|i: int| #[trigger]
                h2.running.dom().contains(i) implies h2.in_flight(h2.running[i])
                && h2.receivers[h2.running[i]] == i by {
                assert(h.in_flight(h.running[i]));
            }
            assert forall|t: int| #[trigger] h2.completed.contains(t) implies 0 <= t
                < h2.received.len() && !h2.in_flight(t) by {
                if t != done {
                    assert(!h.in_flight(t));
                }
            }
            assert forall|t: int|
                0 <= t < h2.received.len() && !h2.completed.contains(t)
                    implies #[trigger] h2.in_flight(t) by {
                assert(h.in_flight(t));
            }
        },
        Step::Close => {
            assert forall|t: int|
                0 <= t < h2.received.len() && !h2.completed.contains(t)
                    implies #[trigger] h2.in_flight(t) by {
                assert(h.in_flight(t));
            }
        },
        Step::Join(id) => {
            assert forall|t: int|
                0 <= t < h2.received.len() && !h2.completed.contains(t)
                    implies #[trigger] h2.in_flight(t) by {
                assert(h.in_flight(t));
            }
        },
    }
}

/// Every run keeps the invariant of the state, the number of workers, and
/// the agreement of record and state.
pub proof fn lemma_run_inv<J>(size: nat, steps: Seq<Step<J>>)
    requires
        size > 0,
        Run::admissible(size, steps),
    ensures
        Run::replay(size, steps).state.inv(),
        Run::replay(size, steps).state.size() == size,
        Run::replay(size, steps).history.agrees_with(Run::replay(size, steps).state),
    decreases steps.len(),
{
    if steps.len() == 0 {
        crate::model::lemma_init_inv::<J>(size);
    } else {
        lemma_run_inv(size, steps.drop_last());
        let before = Run::replay(size, steps.drop_last());
        crate::model::lemma_step_inv(before.state, steps.last());
        lemma_step_agrees(before.state, before.history, steps.last());
    }
}

} // verus!
