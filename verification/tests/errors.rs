use thread_pool::{PoolCreationError, ThreadPool, Worker, WorkerError, WorkerState};

#[test]
fn the_creation_error_says_what_went_wrong() {
    let error = ThreadPool::<u8>::new(0).err().expect("a pool of no workers was made");
    assert_eq!(error, PoolCreationError);
    assert_eq!(
        error.message(),
        "Could not create ThreadPool, the size must be greater than zero!"
    );
}

#[test]
fn worker_errors_say_what_went_wrong() {
    assert_eq!(WorkerError::UnknownWorker.message(), "The pool has no worker of that number!");
    assert_eq!(
        WorkerError::WrongState.message(),
        "The worker is not in the state that this step starts from!"
    );
}

#[test]
fn a_worker_keeps_its_number() {
    let worker = Worker::new(3);
    assert_eq!(worker.id(), 3);
    assert_eq!(worker.state(), WorkerState::Waiting);
    let moved = worker.moved_to(WorkerState::Executing);
    assert_eq!(moved.id(), 3);
    assert_eq!(moved.state(), WorkerState::Executing);
    assert_eq!(worker.state(), WorkerState::Waiting);
}
