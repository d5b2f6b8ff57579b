//! The pool as a mathematical object: the states of its workers, the
//! dispatch queue, and whether shutdown has begun; and the steps that take
//! one such state to the next.
//!
//! Every step is total. A step that does not apply (a job offered when no
//! worker is left to take it, a worker that reports from the wrong state, a
//! second shutdown) leaves the state as it is.

use vstd::prelude::*;
use crate::count::count;
use crate::error::{SubmitError, WorkerError};
use crate::message::{is_signal, job_in, jobs_of, Action, Message};
use crate::worker::{live, signalled, WorkerState};

verus! {

/// The state of a pool.
pub ghost struct PoolModel<J> {
    /// The state of each worker; a worker's number is its place here.
    pub workers: Seq<WorkerState>,
    /// The dispatch queue, front first.
    pub queue: Seq<Message<J>>,
    /// Whether shutdown has begun.
    pub closing: bool,
}

/// Something that happens to a pool.
pub ghost enum Event<J> {
    /// A caller offers a job.
    Submit(J),
    /// The owner begins shutdown.
    ShutDown,
    /// The waiting worker of this number takes the front of the queue.
    Receive(int),
    /// The worker of this number has finished its job.
    Complete(int),
    /// The worker of this number was ended by a fault.
    Fault(int),
    /// The worker of this number, having left its loop, has returned.
    Retire(int),
}

/// The state that a worker moves to when it receives `message`.
pub open spec fn state_after<J>(message: Message<J>) -> WorkerState {
    match message {
        Message::NewJob(_) => WorkerState::Executing,
        Message::Terminate => WorkerState::Terminating,
    }
}

/// `n` terminate signals.
pub open spec fn signals<J>(n: nat) -> Seq<Message<J>> {
    Seq::new(n, |i: int| Message::Terminate)
}

impl<J> PoolModel<J> {
    /// A fresh pool of `size` workers: all waiting, nothing queued.
    pub open spec fn init(size: nat) -> PoolModel<J> {
        PoolModel {
            workers: Seq::new(size, |i: int| WorkerState::Waiting),
            queue: Seq::empty(),
            closing: false,
        }
    }

    /// The number of workers that the pool was made with.
    pub open spec fn size(self) -> nat {
        self.workers.len()
    }

    /// Whether `worker` is the number of one of the pool's workers.
    pub open spec fn has_worker(self, worker: int) -> bool {
        0 <= worker < self.workers.len()
    }

    /// Whether `worker` is a worker of the pool in the state `state`.
    pub open spec fn worker_is(self, worker: int, state: WorkerState) -> bool {
        self.has_worker(worker) && self.workers[worker] == state
    }

    /// The number of terminate signals that are queued.
    pub open spec fn queued_signals(self) -> nat {
        count(self.queue, is_signal())
    }

    /// The jobs that are queued, in the order in which they will be handed
    /// out.
    pub open spec fn queued_jobs(self) -> Seq<J> {
        jobs_of(self.queue)
    }

    /// The number of workers that are still in their loop.
    pub open spec fn live_workers(self) -> nat {
        count(self.workers, live())
    }

    /// The number of workers that have received a terminate signal.
    pub open spec fn signalled_workers(self) -> nat {
        count(self.workers, signalled())
    }

    /// Whether the consuming side of the queue still exists: some worker's
    /// thread has not gone yet.
    pub open spec fn accepts(self) -> bool {
        exists|i: int| 0 <= i < self.workers.len() && !(#[trigger] self.workers[i]).is_gone()
    }

    /// Whether every worker's thread is gone.
    pub open spec fn all_gone(self) -> bool {
        forall|i: int| 0 <= i < self.workers.len() ==> (#[trigger] self.workers[i]).is_gone()
    }

    /// What holds of every pool that was made with `init` and moved by
    /// steps: it has a worker; before shutdown no terminate signal exists,
    /// queued or received; after it began, there is exactly one per worker,
    /// each either still queued or received by a distinct worker.
    pub open spec fn inv(self) -> bool {
        &&& self.workers.len() >= 1
        &&& !self.closing ==> self.queued_signals() == 0 && self.signalled_workers() == 0
        &&& self.closing ==> self.queued_signals() + self.signalled_workers()
            == self.workers.len()
    }

    /// A job is offered. It joins the back of the queue if the consuming
    /// side still exists.
    pub open spec fn submit(self, job: J) -> PoolModel<J> {
        if self.accepts() {
            PoolModel { queue: self.queue.push(Message::NewJob(job)), ..self }
        } else {
            self
        }
    }

    /// Shutdown begins: one terminate signal per worker joins the back of
    /// the queue. A second shutdown does nothing.
    pub open spec fn shut_down(self) -> PoolModel<J> {
        if self.closing {
            self
        } else {
            PoolModel { queue: self.queue + signals(self.size()), closing: true, ..self }
        }
    }

    /// Whether `worker` can take a message: it is waiting and the queue is
    /// not empty.
    pub open spec fn can_receive(self, worker: int) -> bool {
        self.worker_is(worker, WorkerState::Waiting) && self.queue.len() > 0
    }

    /// A waiting worker takes the message at the front of the queue.
    pub open spec fn receive(self, worker: int) -> PoolModel<J> {
        if self.can_receive(worker) {
            PoolModel {
                workers: self.workers.update(worker, state_after(self.queue[0])),
                queue: self.queue.drop_first(),
                ..self
            }
        } else {
            self
        }
    }

    /// An executing worker has finished its job and waits again.
    pub open spec fn complete(self, worker: int) -> PoolModel<J> {
        if self.worker_is(worker, WorkerState::Executing) {
            PoolModel { workers: self.workers.update(worker, WorkerState::Waiting), ..self }
        } else {
            self
        }
    }

    /// A live worker is ended by a fault.
    pub open spec fn fault(self, worker: int) -> PoolModel<J> {
        if self.has_worker(worker) && self.workers[worker].is_live() {
            PoolModel { workers: self.workers.update(worker, WorkerState::Faulted), ..self }
        } else {
            self
        }
    }

    /// A worker that has left its loop returns.
    pub open spec fn retire(self, worker: int) -> PoolModel<J> {
        if self.worker_is(worker, WorkerState::Terminating) {
            PoolModel { workers: self.workers.update(worker, WorkerState::Exited), ..self }
        } else {
            self
        }
    }

    /// What the caller that offers `job` is told: that it was accepted, or
    /// the job back.
    pub open spec fn submit_reply(self, job: J) -> Result<(), SubmitError<J>> {
        if self.accepts() {
            Ok(())
        } else {
            Err(SubmitError { job })
        }
    }

    /// The numbers of the workers whose threads the caller of shutdown has
    /// to wait for, in the order of waiting: all of them for the shutdown
    /// that begins it, none for a later one.
    pub open spec fn join_order(self) -> Seq<usize> {
        if self.closing {
            Seq::empty()
        } else {
            Seq::new(self.size(), |i: int| i as usize)
        }
    }

    /// What the worker that asks for a message is told.
    pub open spec fn receive_reply(self, worker: int) -> Result<Action<J>, WorkerError> {
        if !self.has_worker(worker) {
            Err(WorkerError::UnknownWorker)
        } else if self.workers[worker] != WorkerState::Waiting {
            Err(WorkerError::WrongState)
        } else if self.queue.len() == 0 {
            Ok(Action::Wait)
        } else {
            match self.queue[0] {
                Message::NewJob(job) => Ok(Action::Run(job)),
                Message::Terminate => Ok(Action::Exit),
            }
        }
    }

    /// What a worker is told that reports a step: an error if the pool has
    /// no such worker, another if the step does not start from the state
    /// that the worker is in (`fits`), else that all is well.
    pub open spec fn report_reply(self, worker: int, fits: bool) -> Result<(), WorkerError> {
        if !self.has_worker(worker) {
            Err(WorkerError::UnknownWorker)
        } else if !fits {
            Err(WorkerError::WrongState)
        } else {
            Ok(())
        }
    }

    /// What the worker that reports the end of its job is told.
    pub open spec fn complete_reply(self, worker: int) -> Result<(), WorkerError> {
        self.report_reply(worker, self.workers[worker] == WorkerState::Executing)
    }

    /// What is told of a worker that is reported as ended by a fault.
    pub open spec fn fault_reply(self, worker: int) -> Result<(), WorkerError> {
        self.report_reply(worker, self.workers[worker].is_live())
    }

    /// What the worker that reports its return is told.
    pub open spec fn retire_reply(self, worker: int) -> Result<(), WorkerError> {
        self.report_reply(worker, self.workers[worker] == WorkerState::Terminating)
    }

    /// The state after `event`.
    pub open spec fn step(self, event: Event<J>) -> PoolModel<J> {
        match event {
            Event::Submit(job) => self.submit(job),
            Event::ShutDown => self.shut_down(),
            Event::Receive(worker) => self.receive(worker),
            Event::Complete(worker) => self.complete(worker),
            Event::Fault(worker) => self.fault(worker),
            Event::Retire(worker) => self.retire(worker),
        }
    }

    /// The job that `event` brings into the queue, if any.
    pub open spec fn taken_in(self, event: Event<J>) -> Seq<J> {
        match event {
            Event::Submit(job) if self.accepts() => seq![job],
            _ => Seq::empty(),
        }
    }

    /// The job that `event` hands to a worker, if any.
    pub open spec fn handed_out(self, event: Event<J>) -> Seq<J> {
        match event {
            Event::Receive(worker) if self.can_receive(worker) => job_in(self.queue[0]),
            _ => Seq::empty(),
        }
    }

    /// The state after a run of events, first to last.
    pub open spec fn run(self, events: Seq<Event<J>>) -> PoolModel<J>
        decreases events.len(),
    {
        if events.len() == 0 {
            self
        } else {
            self.run(events.drop_last()).step(events.last())
        }
    }

    /// The jobs that a run of events brings into the queue, in order.
    pub open spec fn accepted(self, events: Seq<Event<J>>) -> Seq<J>
        decreases events.len(),
    {
        if events.len() == 0 {
            Seq::empty()
        } else {
            self.accepted(events.drop_last()) + self.run(events.drop_last()).taken_in(
                events.last(),
            )
        }
    }

    /// The jobs that a run of events hands to workers, in order.
    pub open spec fn dispatched(self, events: Seq<Event<J>>) -> Seq<J>
        decreases events.len(),
    {
        if events.len() == 0 {
            Seq::empty()
        } else {
            self.dispatched(events.drop_last()) + self.run(events.drop_last()).handed_out(
                events.last(),
            )
        }
    }
}

} // verus!
