//! One worker of the pool: its identity and where it stands in its loop.

use vstd::prelude::*;

verus! {

/// Where a worker stands.
///
/// A worker starts out waiting. A job takes it to `Executing` and back; a
/// terminate signal takes it to `Terminating`, from where it retires to
/// `Exited`. A fault ends it at once, from either of the first two states.
#[derive(Debug, Clone, Copy, PartialEq, Eq, Structural)]
pub enum WorkerState {
    /// At the queue, ready for the next message.
    Waiting,
    /// Running a job that it took from the queue.
    Executing,
    /// Has received a terminate signal and left its loop.
    Terminating,
    /// Its thread has returned after a terminate signal.
    Exited,
    /// Its thread was ended by a fault, without a terminate signal.
    Faulted,
}

impl WorkerState {
    /// Still in its loop: waiting for a message or running a job.
    pub open spec fn is_live(self) -> bool {
        self is Waiting || self is Executing
    }

    /// Has received a terminate signal.
    pub open spec fn is_signalled(self) -> bool {
        self is Terminating || self is Exited
    }

    /// Its thread is gone, by signal or by fault.
    pub open spec fn is_gone(self) -> bool {
        self is Exited || self is Faulted
    }
}

/// The property of being live.
pub open spec fn live() -> spec_fn(WorkerState) -> bool {
    |state: WorkerState| state.is_live()
}

/// The property of having received a terminate signal.
pub open spec fn signalled() -> spec_fn(WorkerState) -> bool {
    |state: WorkerState| state.is_signalled()
}

/// A worker: a stable small number and a state.
#[derive(Debug, Clone, Copy)]
pub struct Worker {
    id: usize,
    state: WorkerState,
}

impl View for Worker {
    type V = WorkerState;

    closed spec fn view(&self) -> WorkerState {
        self.state
    }
}

impl Worker {
    /// The number that this worker was made with.
    pub closed spec fn spec_id(&self) -> usize {
        self.id
    }

    /// A worker with the given number, waiting at the queue.
    pub fn new(id: usize) -> (worker: Worker)
        ensures
            worker.spec_id() == id,
            worker@ == WorkerState::Waiting,
    {
        Worker { id, state: WorkerState::Waiting }
    }

    /// The number that this worker was made with.
    #[verifier::when_used_as_spec(spec_id)]
    pub fn id(&self) -> (id: usize)
        ensures
            id == self.spec_id(),
    {
        self.id
    }

    /// Where this worker stands.
    pub fn state(&self) -> (state: WorkerState)
        ensures
            state == self@,
    {
        self.state
    }

    /// The same worker in another state.
    pub fn moved_to(&self, state: WorkerState) -> (worker: Worker)
        ensures
            worker.spec_id() == self.spec_id(),
            worker@ == state,
    {
        Worker { id: self.id, state }
    }
}

} // verus!
