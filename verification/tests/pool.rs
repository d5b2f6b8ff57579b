use std::sync::mpsc;

use thread_pool::{Action, PoolCreationError, ThreadPool, WorkerError, WorkerState};

type Job = Box<dyn FnOnce()>;

/// Lets every worker in turn take what it can and run it, until a full
/// round passes in which no worker was handed a job.
fn drain(pool: &mut ThreadPool<Job>) {
    loop {
        let mut ran = false;
        for worker in 0..pool.size() {
            if pool.state_of(worker) != Some(WorkerState::Waiting) {
                continue;
            }
            match pool.receive(worker) {
                Ok(Action::Run(job)) => {
                    job();
                    assert!(pool.complete(worker).is_ok());
                    ran = true;
                }
                Ok(Action::Exit) => {
                    assert!(pool.retire(worker).is_ok());
                }
                Ok(Action::Wait) => {}
                Err(_) => panic!("a waiting worker was refused"),
            }
        }
        if !ran {
            break;
        }
    }
}

#[test]
fn test_acceptable_threadpool_creation() {
    assert!(ThreadPool::<Job>::new(5).is_ok());
    assert!(ThreadPool::<Job>::new(1).is_ok());
    assert!(ThreadPool::<Job>::new(100).is_ok());
}

#[test]
fn test_threadpool_creation_zero_thread_count() {
    assert!(ThreadPool::<Job>::new(0).is_err());
}

#[test]
fn test_threadpool_basic_sum() {
    let tp_size: i32 = 42;
    let mut tp = ThreadPool::<Job>::new(tp_size as usize).expect("Failed to create threads");
    let (tx, rx) = mpsc::channel();
    for i in 1..tp_size {
        let tx = tx.clone();
        let accepted = tp.execute(Box::new(move || {
            tx.send(i).expect("channel will be waiting");
        }));
        assert!(accepted.is_ok());
    }
    drop(tx);
    drain(&mut tp);
    let result = rx.iter().fold(1, |accumulator, element| accumulator + element);
    assert_eq!(result, (1..tp_size).fold(1, |a, b| a + b));
    assert_eq!(result, 862);
}

#[test]
fn test_threadpool_long_tasks() {
    // Time is counted in ticks. A job with an even number holds its worker
    // for three ticks before it reports; one with an odd number reports in
    // the tick in which it was taken.
    let tp_size: u64 = 5;
    let mut tp = ThreadPool::<u64>::new(tp_size as usize).expect("Failed to create threads.");
    for i in 1..tp_size * 2 {
        assert!(tp.execute(i).is_ok());
    }
    let mut busy: Vec<Option<(u64, u64)>> = vec![None; tp_size as usize];
    let mut results: Vec<u64> = Vec::new();
    let mut now: u64 = 0;
    while results.len() < 9 {
        let mut moved = true;
        while moved {
            moved = false;
            for worker in 0..tp.size() {
                if let Some((job, due)) = busy[worker] {
                    if due <= now {
                        results.push(job);
                        assert!(tp.complete(worker).is_ok());
                        busy[worker] = None;
                        moved = true;
                    }
                } else if let Ok(Action::Run(job)) = tp.receive(worker) {
                    let due = if job % 2 == 0 { now + 3 } else { now };
                    busy[worker] = Some((job, due));
                    moved = true;
                }
            }
        }
        now += 1;
    }
    let midpoint = (results.len() as u64) / 2;
    for (index, result) in results.iter().enumerate() {
        if index as u64 <= midpoint {
            assert!(result % 2 != 0);
        } else {
            assert!(result % 2 == 0);
        }
    }
    assert_eq!(results[..5], [1, 3, 5, 7, 9]);
    let mut late: Vec<u64> = results[5..].to_vec();
    late.sort();
    assert_eq!(late, vec![2, 4, 6, 8]);
}

#[test]
fn a_fresh_pool_has_every_worker_waiting() {
    let pool = ThreadPool::<u32>::new(4).unwrap();
    assert_eq!(pool.size(), 4);
    assert_eq!(pool.pending(), 0);
    assert!(!pool.is_closing());
    assert!(pool.accepts());
    assert!(!pool.is_finished());
    for worker in 0..4 {
        assert_eq!(pool.state_of(worker), Some(WorkerState::Waiting));
    }
    assert_eq!(pool.state_of(4), None);
}

#[test]
fn a_pool_of_no_workers_is_refused() {
    assert!(matches!(ThreadPool::<u32>::new(0), Err(PoolCreationError)));
}

#[test]
fn jobs_are_handed_out_once_and_in_order() {
    let mut pool = ThreadPool::<u32>::new(2).unwrap();
    for job in [10, 20, 30] {
        assert!(pool.execute(job).is_ok());
    }
    assert_eq!(pool.pending(), 3);
    assert!(matches!(pool.receive(1), Ok(Action::Run(10))));
    assert_eq!(pool.state_of(1), Some(WorkerState::Executing));
    assert_eq!(pool.pending(), 2);
    assert!(matches!(pool.receive(0), Ok(Action::Run(20))));
    assert!(pool.complete(1).is_ok());
    assert_eq!(pool.state_of(1), Some(WorkerState::Waiting));
    assert!(matches!(pool.receive(1), Ok(Action::Run(30))));
    assert!(pool.complete(0).is_ok());
    assert!(matches!(pool.receive(0), Ok(Action::Wait)));
    assert_eq!(pool.state_of(0), Some(WorkerState::Waiting));
    assert_eq!(pool.pending(), 0);
}

#[test]
fn a_worker_that_is_not_waiting_gets_no_message() {
    let mut pool = ThreadPool::<u32>::new(1).unwrap();
    assert!(pool.execute(1).is_ok());
    assert!(pool.execute(2).is_ok());
    assert!(matches!(pool.receive(0), Ok(Action::Run(1))));
    assert!(matches!(pool.receive(0), Err(WorkerError::WrongState)));
    assert_eq!(pool.pending(), 1);
    assert!(matches!(pool.receive(1), Err(WorkerError::UnknownWorker)));
    assert_eq!(pool.pending(), 1);
}

#[test]
fn reports_from_the_wrong_state_change_nothing() {
    let mut pool = ThreadPool::<u32>::new(2).unwrap();
    assert_eq!(pool.complete(0), Err(WorkerError::WrongState));
    assert_eq!(pool.retire(0), Err(WorkerError::WrongState));
    assert_eq!(pool.complete(2), Err(WorkerError::UnknownWorker));
    assert_eq!(pool.fault(2), Err(WorkerError::UnknownWorker));
    assert_eq!(pool.retire(2), Err(WorkerError::UnknownWorker));
    assert_eq!(pool.state_of(0), Some(WorkerState::Waiting));
    assert_eq!(pool.fault(0), Ok(()));
    assert_eq!(pool.state_of(0), Some(WorkerState::Faulted));
    assert_eq!(pool.fault(0), Err(WorkerError::WrongState));
    assert_eq!(pool.state_of(0), Some(WorkerState::Faulted));
}

#[test]
fn shutdown_queues_one_signal_per_worker_behind_the_jobs() {
    let mut pool = ThreadPool::<u32>::new(3).unwrap();
    assert!(pool.execute(7).is_ok());
    assert!(pool.execute(8).is_ok());
    let joins = pool.shutdown();
    assert_eq!(joins, vec![0, 1, 2]);
    assert!(pool.is_closing());
    assert_eq!(pool.pending(), 5);
    assert!(matches!(pool.receive(0), Ok(Action::Run(7))));
    assert!(matches!(pool.receive(1), Ok(Action::Run(8))));
    assert!(matches!(pool.receive(2), Ok(Action::Exit)));
    assert_eq!(pool.state_of(2), Some(WorkerState::Terminating));
    assert!(pool.complete(0).is_ok());
    assert!(pool.complete(1).is_ok());
    assert!(matches!(pool.receive(0), Ok(Action::Exit)));
    assert!(matches!(pool.receive(1), Ok(Action::Exit)));
    assert_eq!(pool.pending(), 0);
    assert!(!pool.is_finished());
    for worker in 0..3 {
        assert_eq!(pool.retire(worker), Ok(()));
        assert_eq!(pool.state_of(worker), Some(WorkerState::Exited));
    }
    assert!(pool.is_finished());
    assert!(!pool.accepts());
}

#[test]
fn a_second_shutdown_does_nothing() {
    let mut pool = ThreadPool::<u32>::new(2).unwrap();
    assert_eq!(pool.shutdown(), vec![0, 1]);
    assert_eq!(pool.pending(), 2);
    assert_eq!(pool.shutdown(), Vec::<usize>::new());
    assert_eq!(pool.pending(), 2);
    assert!(pool.is_closing());
}

#[test]
fn a_job_offered_when_every_worker_has_gone_comes_back() {
    let mut pool = ThreadPool::<u32>::new(2).unwrap();
    pool.shutdown();
    assert!(matches!(pool.receive(0), Ok(Action::Exit)));
    assert!(matches!(pool.receive(1), Ok(Action::Exit)));
    assert!(pool.retire(0).is_ok());
    // One worker has left its loop but has not returned yet: the queue still
    // has its consuming side.
    assert!(pool.execute(5).is_ok());
    assert_eq!(pool.pending(), 1);
    assert!(pool.retire(1).is_ok());
    let refused = pool.execute(6);
    match refused {
        Err(error) => {
            assert_eq!(
                error.message(),
                "Could not submit the job, the pool has no worker left to run it!"
            );
            assert_eq!(error.into_job(), 6);
        }
        Ok(()) => panic!("a pool without workers accepted a job"),
    }
    assert_eq!(pool.pending(), 1);
}

#[test]
fn a_fault_takes_one_worker_from_the_pool() {
    let mut pool = ThreadPool::<u32>::new(2).unwrap();
    assert!(pool.execute(1).is_ok());
    assert!(matches!(pool.receive(0), Ok(Action::Run(1))));
    assert_eq!(pool.fault(0), Ok(()));
    assert_eq!(pool.state_of(0), Some(WorkerState::Faulted));
    assert!(matches!(pool.receive(0), Err(WorkerError::WrongState)));
    assert!(pool.accepts());
    assert!(pool.execute(2).is_ok());
    assert!(matches!(pool.receive(1), Ok(Action::Run(2))));
    assert_eq!(pool.fault(1), Ok(()));
    assert!(!pool.accepts());
    assert!(pool.is_finished());
    assert!(pool.execute(3).is_err());
}

#[test]
fn boxed_closures_run_exactly_once_each() {
    let mut pool = ThreadPool::<Job>::new(3).unwrap();
    let (tx, rx) = mpsc::channel();
    for i in 0..10u32 {
        let tx = tx.clone();
        assert!(pool.execute(Box::new(move || tx.send(i).unwrap())).is_ok());
    }
    drop(tx);
    let joins = pool.shutdown();
    assert_eq!(joins.len(), 3);
    drain(&mut pool);
    let seen: Vec<u32> = rx.iter().collect();
    assert_eq!(seen, (0..10).collect::<Vec<u32>>());
    assert!(pool.is_finished());
    assert_eq!(pool.pending(), 0);
}
