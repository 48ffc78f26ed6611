//! The pool itself: the queue, the workers, and the steps that a driver
//! takes on them. Each step is stated against the model.

use crate::history::lemma_replay_push;
use crate::history::History;
use crate::history::Run;
use crate::model::PoolState;
use crate::model::Step;
use crate::worker::Action;
use crate::worker::Worker;
use crate::worker::WorkerState;
use std::collections::VecDeque;
use vstd::prelude::*;

verus! {

/// A pool of a fixed number of workers that share one FIFO queue of jobs.
pub struct ThreadPool<J> {
    workers: Vec<Worker>,
    queue: VecDeque<J>,
    open: bool,
    log: Ghost<Seq<Step<J>>>,
}

impl<J> View for ThreadPool<J> {
    type V = PoolState<J>;

    closed spec fn view(&self) -> PoolState<J> {
        PoolState {
            open: self.open,
            queue: self.queue@,
            workers: Seq::new(self.workers@.len(), |i: int| self.workers@[i].state()),
            threads: Seq::new(self.workers@.len(), |i: int| self.workers@[i].has_thread()),
        }
    }
}

impl<J> ThreadPool<J> {
    /// The steps taken on this pool since its construction, in order.
    pub closed spec fn steps(&self) -> Seq<Step<J>> {
        self.log@
    }

    /// Worker `i` has identity `i`.
    pub closed spec fn ids_in_order(&self) -> bool {
        forall|i: int| 0 <= i < self.workers@.len() ==> (#[trigger] self.workers@[i]).id() == i
    }

    /// The pool is well formed: it has a worker, worker `i` has identity
    /// `i`, and its state is where its steps lead from construction, each
    /// of them enabled when it was taken.
    pub open spec fn wf(&self) -> bool {
        &&& self@.size() > 0
        &&& self.ids_in_order()
        &&& Run::admissible(self@.size(), self.steps())
        &&& self@ == Run::replay(self@.size(), self.steps()).state
    }

    /// The record of this pool's jobs.
    pub open spec fn history(&self) -> History<J> {
        Run::replay(self@.size(), self.steps()).history
    }

    /// A pool of `size` workers: open, with an empty queue, each worker
    /// spawned and holding its thread handle.
    pub fn new(size: usize) -> (pool: Self)
        requires
            size > 0,
        ensures
            pool.wf(),
            pool@ == PoolState::<J>::init(size as nat),
            pool.steps() == Seq::<Step<J>>::empty(),
    {
        let mut workers: Vec<Worker> = Vec::new();
        let mut id: usize = 0;
        while id < size
            invariant
                id <= size,
                workers@.len() == id,
                forall|i: int|
                    0 <= i < id ==> {
                        &&& (#[trigger] workers@[i]).id() == i
                        &&& workers@[i].state() == WorkerState::Spawned
                        &&& workers@[i].has_thread()
                    },
            decreases size - id,
        {
            workers.push(Worker::new(id));
            id = id + 1;
        }
        let pool = ThreadPool {
            workers,
            queue: VecDeque::new(),
            open: true,
            log: Ghost(Seq::empty()),
        };
        proof {
            let init = PoolState::<J>::init(size as nat);
            assert(pool@.workers =~= init.workers);
            assert(pool@.threads =~= init.threads);
            assert(pool@.queue =~= init.queue);
        }
        pool
    }

    /// As `new`, for any `size`: no pool is made of no workers.
    pub fn try_new(size: usize) -> (made: Option<Self>)
        ensures
            size == 0 <==> made is None,
            made matches Some(pool) ==> {
                &&& pool.wf()
                &&& pool@ == PoolState::<J>::init(size as nat)
                &&& pool.steps() == Seq::<Step<J>>::empty()
            },
    {
        if size == 0 {
            None
        } else {
            Some(Self::new(size))
        }
    }

    /// The number of workers.
    pub fn size(&self) -> (n: usize)
        ensures
            n == self@.size(),
    {
        self.workers.len()
    }

    /// Whether the pool still accepts jobs.
    pub fn is_open(&self) -> (open: bool)
        ensures
            open == self@.open,
    {
        self.open
    }

    /// The number of jobs that are queued and not yet handed to a worker.
    pub fn pending(&self) -> (n: usize)
        ensures
            n == self@.queue.len(),
    {
        self.queue.len()
    }

    /// The record of worker `id`.
    pub fn worker(&self, id: usize) -> (w: Worker)
        requires
            self.wf(),
            self@.has_worker(id as int),
        ensures
            w.id() == id,
            w.state() == self@.workers[id as int],
            w.has_thread() == self@.threads[id as int],
    {
        self.workers[id]
    }

    /// Whether worker `id` may ask for a job: it is a worker of this pool
    /// and neither runs a job nor has ended.
    pub fn can_receive(&self, id: usize) -> (may: bool)
        ensures
            may == self@.can_receive(id as int),
    {
        if id < self.workers.len() {
            let state = self.workers[id].state();
            state == WorkerState::Spawned || state == WorkerState::Polling || state
                == WorkerState::Draining
        } else {
            false
        }
    }

    /// Whether worker `id` may report a job as returned: it is a worker of
    /// this pool and is running one.
    pub fn can_finish(&self, id: usize) -> (may: bool)
        ensures
            may == self@.can_finish(id as int),
    {
        id < self.workers.len() && self.workers[id].state() == WorkerState::Executing
    }

    /// Whether every worker has ended.
    pub fn all_terminated(&self) -> (ended: bool)
        ensures
            ended == self@.all_terminated(),
    {
        let mut i: usize = 0;
        while i < self.workers.len()
            invariant
                i <= self.workers@.len(),
                forall|k: int| 0 <= k < i
                    ==> #[trigger] self@.workers[k] == WorkerState::Terminated,
            decreases self.workers@.len() - i,
        {
            if self.workers[i].state() != WorkerState::Terminated {
                assert(self@.workers[i as int] != WorkerState::Terminated);
                return false;
            }
            i = i + 1;
        }
        true
    }

    /// Submits `job`: it goes to the back of the queue. No worker is waited
    /// for, and none changes.
    pub fn execute(&mut self, job: J)
        requires
            old(self).wf(),
            old(self)@.open,
        ensures
            final(self).wf(),
            final(self)@ == old(self)@.submit(job),
            final(self).steps() == old(self).steps().push(Step::Submit(job)),
    {
        self.queue.push_back(job);
        self.log = Ghost(self.log@.push(Step::Submit(job)));
        proof {
            let after = old(self)@.submit(job);
            assert(self@.workers =~= after.workers);
            assert(self@.threads =~= after.threads);
            lemma_replay_push(old(self)@.size(), old(self).steps(), Step::Submit(job));
        }
    }

    /// As `execute`, for a pool in any state: a closed pool takes no job and
    /// hands it back.
    pub fn try_execute(&mut self, job: J) -> (sent: Result<(), J>)
        requires
            old(self).wf(),
        ensures
            final(self).wf(),
            old(self)@.open ==> {
                &&& sent is Ok
                &&& final(self)@ == old(self)@.submit(job)
                &&& final(self).steps() == old(self).steps().push(Step::Submit(job))
            },
            !old(self)@.open ==> {
                &&& sent == Err::<(), J>(job)
                &&& final(self)@ == old(self)@
                &&& final(self).steps() == old(self).steps()
            },
    {
        if self.open {
            self.execute(job);
            Ok(())
        } else {
            Err(job)
        }
    }

    /// Worker `id` asks for a job. It is handed the oldest queued job, and
    /// is executing; or, with nothing queued, it is told to wait while the
    /// pool is open, and to leave once it is closed.
    pub fn receive(&mut self, id: usize) -> (action: Action<J>)
        requires
            old(self).wf(),
            old(self)@.can_receive(id as int),
        ensures
            final(self).wf(),
            final(self)@ == old(self)@.receive(id as int),
            final(self).steps() == old(self).steps().push(Step::Receive(id as int)),
            action == old(self)@.handout(),
    {
        let (state, action) = match self.queue.pop_front() {
            Some(job) => (WorkerState::Executing, Action::Run(job)),
            None => if self.open {
                (WorkerState::Polling, Action::Wait)
            } else {
                (WorkerState::Terminated, Action::Exit)
            },
        };
        self.move_worker(id, state);
        self.log = Ghost(self.log@.push(Step::Receive(id as int)));
        proof {
            let after = old(self)@.receive(id as int);
            assert(self@.workers =~= after.workers);
            assert(self@.threads =~= after.threads);
            assert(self@.queue =~= after.queue);
            lemma_replay_push(old(self)@.size(), old(self).steps(), Step::Receive(id as int));
        }
        action
    }

    /// Worker `id` reports that its job has returned: it polls again.
    pub fn finish(&mut self, id: usize)
        requires
            old(self).wf(),
            old(self)@.can_finish(id as int),
        ensures
            final(self).wf(),
            final(self)@ == old(self)@.finish(id as int),
            final(self).steps() == old(self).steps().push(Step::Finish(id as int)),
    {
        self.move_worker(id, WorkerState::Polling);
        self.log = Ghost(self.log@.push(Step::Finish(id as int)));
        proof {
            let after = old(self)@.finish(id as int);
            assert(self@.workers =~= after.workers);
            assert(self@.threads =~= after.threads);
            lemma_replay_push(old(self)@.size(), old(self).steps(), Step::Finish(id as int));
        }
    }

    /// Closes the submitting side: the signal to shut down. The queue keeps
    /// its jobs, and every waiting worker starts draining.
    pub fn close(&mut self)
        requires
            old(self).wf(),
        ensures
            final(self).wf(),
            final(self)@ == old(self)@.close(),
            final(self).steps() == old(self).steps().push(Step::Close),
    {
        self.log = Ghost(self.log@.push(Step::Close));
        proof {
            lemma_replay_push(old(self)@.size(), old(self).steps(), Step::Close);
        }
        if self.open {
            self.open = false;
            let mut i: usize = 0;
            while i < self.workers.len()
                invariant
                    i <= self.workers@.len(),
                    self.workers@.len() == old(self).workers@.len(),
                    self.queue == old(self).queue,
                    self.log@ == old(self).log@.push(Step::Close),
                    !self.open,
                    old(self).open,
                    forall|k: int|
                        0 <= k < self.workers@.len() ==> {
                            &&& (#[trigger] self.workers@[k]).id() == old(self).workers@[k].id()
                            &&& self.workers@[k].has_thread() == old(self).workers@[k].has_thread()
                            &&& self.workers@[k].state() == if k < i {
                                old(self)@.close().workers[k]
                            } else {
                                old(self).workers@[k].state()
                            }
                        },
                decreases self.workers@.len() - i,
            {
                assert(old(self)@.workers[i as int] == old(self).workers@[i as int].state());
                if self.workers[i].state() == WorkerState::Polling {
                    self.move_worker(i, WorkerState::Draining);
                }
                i = i + 1;
            }
            proof {
                let after = old(self)@.close();
                assert(self@.workers =~= after.workers);
                assert(self@.threads =~= after.threads);
            }
        }
    }

    /// Takes the thread handle of the next worker to be joined: the first,
    /// by identity, that still holds one. `None` once every handle is gone.
    pub fn next_join(&mut self) -> (next: Option<usize>)
        requires
            old(self).wf(),
            !old(self)@.open,
        ensures
            final(self).wf(),
            match next {
                Some(id) => {
                    &&& old(self)@.can_join(id as int)
                    &&& final(self)@ == old(self)@.join(id as int)
                    &&& final(self).steps() == old(self).steps().push(Step::Join(id as int))
                },
                None => {
                    &&& old(self)@.all_joined()
                    &&& final(self)@ == old(self)@
                    &&& final(self).steps() == old(self).steps()
                },
            },
    {
        let mut i: usize = 0;
        while i < self.workers.len()
            invariant
                i <= self.workers@.len(),
                *self == *old(self),
                old(self).wf(),
                !old(self)@.open,
                forall|k: int| 0 <= k < i ==> !#[trigger] self@.threads[k],
            decreases self.workers@.len() - i,
        {
            if self.workers[i].has_thread() {
                let mut w = self.workers[i];
                w.take_thread();
                self.workers.set(i, w);
                self.log = Ghost(self.log@.push(Step::Join(i as int)));
                proof {
                    let after = old(self)@.join(i as int);
                    assert(self@.workers =~= after.workers);
                    assert(self@.threads =~= after.threads);
                    lemma_replay_push(old(self)@.size(), old(self).steps(), Step::Join(i as int));
                }
                return Some(i);
            }
            i = i + 1;
        }
        None
    }

    /// Puts worker `id` into `state`; nothing else changes.
    fn move_worker(&mut self, id: usize, state: WorkerState)
        requires
            id < old(self).workers@.len(),
        ensures
            final(self).open == old(self).open,
            final(self).queue == old(self).queue,
            final(self).log == old(self).log,
            final(self).workers@.len() == old(self).workers@.len(),
            forall|k: int|
                0 <= k < old(self).workers@.len() ==> {
                    &&& (#[trigger] final(self).workers@[k]).id() == old(self).workers@[k].id()
                    &&& final(self).workers@[k].has_thread() == old(self).workers@[k].has_thread()
                    &&& final(self).workers@[k].state() == if k == id {
                        state
                    } else {
                        old(self).workers@[k].state()
                    }
                },
    {
        let mut w = self.workers[id];
        w.set_state(state);
        self.workers.set(id, w);
    }
}

} // verus!
