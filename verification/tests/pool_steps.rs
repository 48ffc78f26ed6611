use worker_pool::Action;
use worker_pool::ThreadPool;
use worker_pool::Worker;
use worker_pool::WorkerState;

#[test]
fn new_pool_has_exactly_size_workers() {
    for size in [1usize, 2, 4, 17, 64] {
        let pool: ThreadPool<u32> = ThreadPool::new(size);
        assert_eq!(pool.size(), size);
        assert!(pool.is_open());
        assert_eq!(pool.pending(), 0);
        for id in 0..size {
            let w = pool.worker(id);
            assert_eq!(w.id(), id);
            assert_eq!(w.state(), WorkerState::Spawned);
            assert!(w.has_thread());
            assert!(pool.can_receive(id));
            assert!(!pool.can_finish(id));
        }
        assert!(!pool.can_receive(size));
        assert!(!pool.can_finish(size));
        assert!(!pool.all_terminated());
    }
}

#[test]
fn size_stays_fixed_through_every_step() {
    let mut pool: ThreadPool<u32> = ThreadPool::new(3);
    pool.execute(1);
    assert_eq!(pool.size(), 3);
    assert_eq!(pool.receive(2), Action::Run(1));
    assert_eq!(pool.size(), 3);
    pool.finish(2);
    assert_eq!(pool.size(), 3);
    pool.close();
    assert_eq!(pool.size(), 3);
    assert_eq!(pool.next_join(), Some(0));
    assert_eq!(pool.size(), 3);
    assert_eq!(pool.receive(0), Action::Exit);
    assert_eq!(pool.size(), 3);
}

#[test]
fn execute_puts_the_job_at_the_back() {
    let mut pool: ThreadPool<&'static str> = ThreadPool::new(2);
    pool.execute("first");
    assert_eq!(pool.pending(), 1);
    pool.execute("second");
    assert_eq!(pool.pending(), 2);
    assert_eq!(pool.receive(0), Action::Run("first"));
    assert_eq!(pool.pending(), 1);
    assert_eq!(pool.receive(1), Action::Run("second"));
    assert_eq!(pool.pending(), 0);
}

#[test]
fn every_job_is_handed_out_exactly_once() {
    let mut pool: ThreadPool<usize> = ThreadPool::new(3);
    let mut seen = vec![0u32; 50];
    for job in 0..50usize {
        pool.execute(job);
    }
    let mut turn: usize = 0;
    while pool.pending() > 0 {
        let id: usize = turn % 3;
        match pool.receive(id) {
            Action::Run(job) => {
                seen[job] += 1;
                pool.finish(id);
            }
            other => panic!("a queued job was not handed out: {:?}", other),
        }
        turn += 1;
    }
    assert!(seen.iter().all(|&times| times == 1));
    // Nothing is handed out a second time.
    assert_eq!(pool.receive(0), Action::Wait);
    assert_eq!(pool.receive(1), Action::Wait);
    assert_eq!(pool.receive(2), Action::Wait);
}

#[test]
fn submissions_from_two_callers_are_each_handed_out_once() {
    let mut pool: ThreadPool<(char, u32)> = ThreadPool::new(2);
    let mut got: Vec<(char, u32)> = Vec::new();
    for n in 0..10u32 {
        pool.execute(('x', n));
        pool.execute(('y', n));
        if let Action::Run(job) = pool.receive(0) {
            got.push(job);
            pool.finish(0);
        }
    }
    pool.close();
    loop {
        match pool.receive(1) {
            Action::Run(job) => {
                got.push(job);
                pool.finish(1);
            }
            Action::Exit => break,
            Action::Wait => panic!("a closed pool never tells a worker to wait"),
        }
    }
    assert_eq!(got.len(), 20);
    for n in 0..10u32 {
        assert_eq!(got.iter().filter(|&&job| job == ('x', n)).count(), 1);
        assert_eq!(got.iter().filter(|&&job| job == ('y', n)).count(), 1);
    }
    // Each caller's jobs come out in the order in which it submitted them.
    let xs: Vec<u32> = got.iter().filter(|job| job.0 == 'x').map(|job| job.1).collect();
    let ys: Vec<u32> = got.iter().filter(|job| job.0 == 'y').map(|job| job.1).collect();
    assert_eq!(xs, (0..10u32).collect::<Vec<u32>>());
    assert_eq!(ys, (0..10u32).collect::<Vec<u32>>());
}

#[test]
fn jobs_are_received_in_submission_order() {
    let mut pool: ThreadPool<u32> = ThreadPool::new(4);
    for job in [10u32, 20, 30, 40, 50] {
        pool.execute(job);
    }
    // Four workers take a job each without finishing: the order of receipt
    // is the order of submission, whoever asks.
    assert_eq!(pool.receive(3), Action::Run(10));
    assert_eq!(pool.receive(1), Action::Run(20));
    assert_eq!(pool.receive(0), Action::Run(30));
    assert_eq!(pool.receive(2), Action::Run(40));
    // Completion may go in any order.
    pool.finish(2);
    assert_eq!(pool.receive(2), Action::Run(50));
    pool.finish(3);
    assert_eq!(pool.receive(3), Action::Wait);
}

#[test]
fn execute_does_not_wait_for_busy_workers() {
    let mut pool: ThreadPool<u32> = ThreadPool::new(2);
    pool.execute(1);
    pool.execute(2);
    // Both workers take a job and never report back.
    assert_eq!(pool.receive(0), Action::Run(1));
    assert_eq!(pool.receive(1), Action::Run(2));
    assert!(!pool.can_receive(0));
    assert!(!pool.can_receive(1));
    // Submitting still goes through, and leaves the workers alone.
    for job in 3..1000u32 {
        pool.execute(job);
    }
    assert_eq!(pool.pending(), 997);
    assert_eq!(pool.worker(0).state(), WorkerState::Executing);
    assert_eq!(pool.worker(1).state(), WorkerState::Executing);
    assert_eq!(pool.try_execute(1000), Ok(()));
    assert_eq!(pool.pending(), 998);
}

#[test]
fn receive_with_nothing_queued_waits_while_open() {
    let mut pool: ThreadPool<u32> = ThreadPool::new(1);
    assert_eq!(pool.receive(0), Action::Wait);
    assert_eq!(pool.worker(0).state(), WorkerState::Polling);
    assert!(pool.can_receive(0));
    assert_eq!(pool.receive(0), Action::Wait);
    assert_eq!(pool.worker(0).state(), WorkerState::Polling);
    // A job that arrives later is handed to the waiting worker.
    pool.execute(5);
    assert_eq!(pool.receive(0), Action::Run(5));
    assert_eq!(pool.worker(0).state(), WorkerState::Executing);
}

#[test]
fn receive_with_nothing_queued_exits_once_closed() {
    let mut pool: ThreadPool<u32> = ThreadPool::new(2);
    pool.close();
    assert_eq!(pool.receive(1), Action::Exit);
    assert_eq!(pool.worker(1).state(), WorkerState::Terminated);
    assert_eq!(pool.worker(0).state(), WorkerState::Spawned);
    assert!(!pool.can_receive(1));
    assert!(!pool.can_finish(1));
    assert!(!pool.all_terminated());
    assert_eq!(pool.receive(0), Action::Exit);
    assert!(pool.all_terminated());
}

#[test]
fn finish_sends_the_worker_back_to_polling() {
    let mut pool: ThreadPool<u32> = ThreadPool::new(2);
    pool.execute(1);
    pool.execute(2);
    assert_eq!(pool.receive(0), Action::Run(1));
    assert!(pool.can_finish(0));
    assert!(!pool.can_finish(1));
    pool.finish(0);
    assert_eq!(pool.worker(0).state(), WorkerState::Polling);
    assert_eq!(pool.worker(1).state(), WorkerState::Spawned);
    assert_eq!(pool.pending(), 1);
    // Also when the pool has been closed in the meantime.
    assert_eq!(pool.receive(1), Action::Run(2));
    pool.close();
    pool.finish(1);
    assert_eq!(pool.worker(1).state(), WorkerState::Polling);
    assert_eq!(pool.receive(1), Action::Exit);
}

#[test]
fn close_sets_waiting_workers_draining_and_no_others() {
    let mut pool: ThreadPool<u32> = ThreadPool::new(4);
    pool.execute(1);
    pool.execute(2);
    assert_eq!(pool.receive(0), Action::Run(1));
    assert_eq!(pool.receive(1), Action::Run(2));
    pool.finish(1);
    assert_eq!(pool.receive(2), Action::Wait);
    pool.execute(3);
    pool.close();
    assert!(!pool.is_open());
    assert_eq!(pool.pending(), 1);
    assert_eq!(pool.worker(0).state(), WorkerState::Executing);
    assert_eq!(pool.worker(1).state(), WorkerState::Draining);
    assert_eq!(pool.worker(2).state(), WorkerState::Draining);
    assert_eq!(pool.worker(3).state(), WorkerState::Spawned);
    for id in 0..4usize {
        assert!(pool.worker(id).has_thread());
    }
    // A draining worker still takes what is queued.
    assert_eq!(pool.receive(2), Action::Run(3));
    assert_eq!(pool.worker(2).state(), WorkerState::Executing);
    assert_eq!(pool.receive(1), Action::Exit);
    assert_eq!(pool.worker(1).state(), WorkerState::Terminated);
}

#[test]
fn close_on_a_closed_pool_changes_nothing() {
    let mut pool: ThreadPool<u32> = ThreadPool::new(2);
    pool.execute(1);
    assert_eq!(pool.receive(0), Action::Run(1));
    pool.close();
    pool.finish(0);
    assert_eq!(pool.worker(0).state(), WorkerState::Polling);
    pool.close();
    assert!(!pool.is_open());
    assert_eq!(pool.worker(0).state(), WorkerState::Polling);
    assert_eq!(pool.worker(1).state(), WorkerState::Spawned);
    assert_eq!(pool.pending(), 0);
}

#[test]
fn try_execute_on_a_closed_pool_hands_the_job_back() {
    let mut pool: ThreadPool<String> = ThreadPool::new(1);
    assert_eq!(pool.try_execute(String::from("early")), Ok(()));
    pool.close();
    assert_eq!(pool.try_execute(String::from("late")), Err(String::from("late")));
    assert_eq!(pool.pending(), 1);
    assert_eq!(pool.receive(0), Action::Run(String::from("early")));
    pool.finish(0);
    assert_eq!(pool.receive(0), Action::Exit);
}

#[test]
fn queued_and_running_jobs_complete_before_teardown_ends() {
    let mut pool: ThreadPool<u32> = ThreadPool::new(2);
    let mut done: Vec<u32> = Vec::new();
    for job in 1..=5u32 {
        pool.execute(job);
    }
    // One job is in flight and four are queued when the pool is closed.
    assert_eq!(pool.receive(1), Action::Run(1));
    pool.close();
    assert_eq!(pool.pending(), 4);
    assert!(!pool.all_terminated());
    // The worker in flight is let to finish; no worker leaves while jobs
    // are queued.
    done.push(1);
    pool.finish(1);
    let mut id: usize = 0;
    while !pool.all_terminated() {
        if pool.can_receive(id) {
            match pool.receive(id) {
                Action::Run(job) => {
                    assert!(!pool.all_terminated());
                    done.push(job);
                    pool.finish(id);
                }
                Action::Exit => assert_eq!(pool.pending(), 0),
                Action::Wait => panic!("a closed pool never tells a worker to wait"),
            }
        }
        id = (id + 1) % 2;
    }
    assert_eq!(done, vec![1, 2, 3, 4, 5]);
    assert_eq!(pool.pending(), 0);
}

#[test]
fn handles_are_taken_in_identity_order_and_once() {
    let mut pool: ThreadPool<u32> = ThreadPool::new(3);
    pool.close();
    assert_eq!(pool.next_join(), Some(0));
    assert!(!pool.worker(0).has_thread());
    assert!(pool.worker(1).has_thread());
    assert!(pool.worker(2).has_thread());
    assert_eq!(pool.next_join(), Some(1));
    assert_eq!(pool.next_join(), Some(2));
    assert_eq!(pool.next_join(), None);
    assert_eq!(pool.next_join(), None);
    for id in 0..3usize {
        assert!(!pool.worker(id).has_thread());
        // Taking a handle does not touch the worker's state.
        assert_eq!(pool.worker(id).state(), WorkerState::Spawned);
    }
}

#[test]
fn a_worker_gives_its_handle_up_once() {
    let mut w = Worker::new(7);
    assert_eq!(w.id(), 7);
    assert_eq!(w.state(), WorkerState::Spawned);
    assert!(w.has_thread());
    assert!(w.take_thread());
    assert!(!w.has_thread());
    assert!(!w.take_thread());
    assert!(!w.has_thread());
    assert_eq!(w.id(), 7);
    assert_eq!(w.state(), WorkerState::Spawned);
}

#[test]
fn a_worker_walks_its_whole_life_cycle() {
    let mut pool: ThreadPool<u32> = ThreadPool::new(1);
    assert_eq!(pool.worker(0).state(), WorkerState::Spawned);
    assert_eq!(pool.receive(0), Action::Wait);
    assert_eq!(pool.worker(0).state(), WorkerState::Polling);
    pool.execute(1);
    pool.execute(2);
    assert_eq!(pool.receive(0), Action::Run(1));
    assert_eq!(pool.worker(0).state(), WorkerState::Executing);
    pool.finish(0);
    assert_eq!(pool.worker(0).state(), WorkerState::Polling);
    pool.close();
    assert_eq!(pool.worker(0).state(), WorkerState::Draining);
    assert_eq!(pool.receive(0), Action::Run(2));
    assert_eq!(pool.worker(0).state(), WorkerState::Executing);
    pool.finish(0);
    assert_eq!(pool.worker(0).state(), WorkerState::Polling);
    assert_eq!(pool.receive(0), Action::Exit);
    assert_eq!(pool.worker(0).state(), WorkerState::Terminated);
    assert!(pool.all_terminated());
}
