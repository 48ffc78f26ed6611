//! What the pool guarantees, proved of every run from construction.

use crate::history::lemma_run_inv;
use crate::history::Run;
use crate::model::PoolState;
use crate::model::Step;
use crate::worker::WorkerState;
use vstd::prelude::*;

verus! {

/// The size of a pool never changes: after any run, a pool constructed with
/// `size` workers has exactly `size` workers and as many handle slots, and
/// while it is open every one of them is alive and holds its handle.
pub proof fn lemma_size_is_fixed<J>(size: nat, steps: Seq<Step<J>>)
    requires
        size > 0,
        Run::admissible(size, steps),
    ensures
        Run::replay(size, steps).state.workers.len() == size,
        Run::replay(size, steps).state.threads.len() == size,
        Run::replay(size, steps).state.open ==> forall|i: int|
            0 <= i < size ==> {
                &&& #[trigger] Run::replay(size, steps).state.workers[i] != WorkerState::Terminated
                &&& Run::replay(size, steps).state.threads[i]
            },
{
    lemma_run_inv(size, steps);
}

/// Every job is handed out exactly once, to exactly one worker.
///
/// After any run, the jobs submitted are the jobs handed out followed by
/// the jobs still queued, position by position: none is lost and none is
/// doubled. Each job handed out went to one worker of the pool, and it has
/// either returned or is in flight on that worker, never both. A worker
/// has a job in flight only while it is executing.
pub proof fn lemma_exactly_once<J>(size: nat, steps: Seq<Step<J>>)
    requires
        size > 0,
        Run::admissible(size, steps),
    ensures
        ({
            let run = Run::replay(size, steps);
            let h = run.history;
            &&& h.submitted == h.received + run.state.queue
            &&& h.receivers.len() == h.received.len()
            &&& forall|t: int|
                0 <= t < h.received.len() ==> 0 <= #[trigger] h.receivers[t] < size
            &&& forall|t: int|
                0 <= t < h.received.len()
                    ==> (h.completed.contains(t) <==> !#[trigger] h.in_flight(t))
            &&& forall|t: int|
                0 <= t < h.received.len() && #[trigger] h.in_flight(t)
                    ==> run.state.workers[h.receivers[t]]
                    == WorkerState::Executing
            &&& forall|t: int| #[trigger] h.completed.contains(t) ==> 0 <= t < h.received.len()
        }),
{
    lemma_run_inv(size, steps);
}

/// Jobs are handed out in the order of submission: after any run, the
/// sequence of jobs handed to workers is a prefix of the sequence of jobs
/// submitted.
pub proof fn lemma_fifo<J>(size: nat, steps: Seq<Step<J>>)
    requires
        size > 0,
        Run::admissible(size, steps),
    ensures
        Run::replay(size, steps).history.received.is_prefix_of(
            Run::replay(size, steps).history.submitted,
        ),
{
    lemma_run_inv(size, steps);
}

/// Submitting never waits for a worker: in an open pool a job is accepted
/// whatever the workers are doing and however long the queue is, and the
/// step changes nothing but the queue.
pub proof fn lemma_submit_never_waits<J>(s: PoolState<J>, job: J)
    requires
        s.open,
    ensures
        s.enabled(Step::Submit(job)),
        s.apply(Step::Submit(job)).queue == s.queue.push(job),
        s.apply(Step::Submit(job)).workers == s.workers,
        s.apply(Step::Submit(job)).threads == s.threads,
        s.apply(Step::Submit(job)).open,
{
}

/// A pool drains before it is torn down: once every worker has ended, the
/// queue is empty and every job ever submitted has been handed out and has
/// returned.
pub proof fn lemma_drained_when_terminated<J>(size: nat, steps: Seq<Step<J>>)
    requires
        size > 0,
        Run::admissible(size, steps),
        Run::replay(size, steps).state.all_terminated(),
    ensures
        !Run::replay(size, steps).state.open,
        Run::replay(size, steps).state.queue.len() == 0,
        Run::replay(size, steps).history.received == Run::replay(size, steps).history.submitted,
        forall|t: int|
            0 <= t < Run::replay(size, steps).history.submitted.len() ==> Run::replay(
                size,
                steps,
            ).history.completed.contains(t),
{
    lemma_run_inv(size, steps);
    let run = Run::replay(size, steps);
    let h = run.history;
    assert(run.state.workers[0] == WorkerState::Terminated);
    assert(h.submitted =~= h.received);
    assert forall|t: int| 0 <= t < h.submitted.len() implies h.completed.contains(t) by {
        if !h.completed.contains(t) {
            assert(h.in_flight(t));
            assert(run.state.workers[h.receivers[t]] == WorkerState::Terminated);
        }
    }
}

/// Each step moves a worker along an edge of its life cycle, or leaves it
/// where it is. So an executing worker can only go back to polling, and a
/// worker that has ended stays so.
pub proof fn lemma_life_cycle<J>(s: PoolState<J>, step: Step<J>, id: int)
    requires
        s.inv(),
        s.enabled(step),
        s.has_worker(id),
    ensures
        s.apply(step).workers[id] == s.workers[id] || s.workers[id].may_become(
            s.apply(step).workers[id],
        ),
{
}

/// A worker that has not ended can always take a step: it asks for a job,
/// or it reports that its job has returned. No worker is ever stuck, so a
/// closed pool keeps draining until every worker has ended.
pub proof fn lemma_worker_can_step<J>(s: PoolState<J>, id: int)
    requires
        s.has_worker(id),
        s.workers[id] != WorkerState::Terminated,
    ensures
        s.enabled(Step::Receive(id)) != s.enabled(Step::Finish(id)),
{
}

/// Workers run side by side: what one worker asks for or reports changes
/// no other worker, and neither stops another from asking or reporting. So
/// any number of workers may be executing at once.
pub proof fn lemma_workers_do_not_hinder<J>(s: PoolState<J>, id: int, other: int)
    requires
        s.has_worker(id),
        s.has_worker(other),
        id != other,
    ensures
        s.receive(id).workers[other] == s.workers[other],
        s.finish(id).workers[other] == s.workers[other],
        s.receive(id).can_receive(other) == s.can_receive(other),
        s.receive(id).can_finish(other) == s.can_finish(other),
        s.finish(id).can_receive(other) == s.can_receive(other),
        s.finish(id).can_finish(other) == s.can_finish(other),
{
}

/// A worker ends only when nothing is left for it: the step that ends a
/// worker is a request for a job made when the pool is closed and the queue
/// is empty.
pub proof fn lemma_ends_only_when_drained<J>(s: PoolState<J>, step: Step<J>, id: int)
    requires
        s.enabled(step),
        s.has_worker(id),
        s.workers[id] != WorkerState::Terminated,
        s.apply(step).workers[id] == WorkerState::Terminated,
    ensures
        step == Step::<J>::Receive(id),
        !s.open,
        s.queue.len() == 0,
{
}

/// Thread handles are taken in the order of the workers' identities, each
/// at most once, and only after the pool is closed.
pub proof fn lemma_join_order<J>(s: PoolState<J>, id: int)
    requires
        s.inv(),
        s.enabled(Step::Join(id)),
    ensures
        !s.open,
        forall|j: int| 0 <= j < s.threads.len() ==> (#[trigger] s.threads[j] <==> id <= j),
        !s.apply(Step::Join(id)).enabled(Step::Join(id)),
{
}

} // verus!
