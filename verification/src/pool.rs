//! The pool itself: the workers' records and the dispatch queue, with one
//! function for each thing that can happen to them.
//!
//! The pool runs no thread. Whoever owns the threads keeps one pool behind a
//! lock and asks it at every turn: a worker that is ready calls `receive` and
//! does what it is told; when its job is done it calls `complete`; the owner
//! calls `execute` to hand in a job and `shutdown` to end the pool.

use std::collections::VecDeque;
use vstd::prelude::*;
use crate::error::{PoolCreationError, SubmitError, WorkerError};
use crate::laws::{lemma_fresh_pool, lemma_step_keeps_order};
use crate::message::{Action, Message};
use crate::model::{signals, Event, PoolModel};
use crate::worker::{Worker, WorkerState};

verus! {

/// A pool of a fixed number of workers that share one queue of jobs.
pub struct ThreadPool<J> {
    workers: Vec<Worker>,
    queue: VecDeque<Message<J>>,
    closing: bool,
}

impl<J> View for ThreadPool<J> {
    type V = PoolModel<J>;

    closed spec fn view(&self) -> PoolModel<J> {
        PoolModel {
            workers: Seq::new(self.workers@.len(), |i: int| self.workers@[i]@),
            queue: self.queue@,
            closing: self.closing,
        }
    }
}

impl<J> ThreadPool<J> {
    /// Each worker's record stands at the place of its number.
    pub closed spec fn numbered(&self) -> bool {
        forall|i: int| 0 <= i < self.workers@.len() ==> (#[trigger] self.workers@[i]).spec_id() == i
    }

    /// The pool is as every pool is that `new` made and its own functions
    /// changed.
    pub open spec fn wf(&self) -> bool {
        self.numbered() && self@.inv()
    }

    /// Creates a pool of `size` workers, all waiting, with an empty queue.
    /// A pool of no workers is refused.
    pub fn new(size: usize) -> (made: Result<ThreadPool<J>, PoolCreationError>)
        ensures
            size == 0 <==> made is Err,
            made matches Ok(pool) ==> pool.wf() && pool@ == PoolModel::<J>::init(size as nat),
    {
        if size == 0 {
            return Err(PoolCreationError);
        }
        let mut workers: Vec<Worker> = Vec::with_capacity(size);
        let mut id: usize = 0;
        while id < size
            invariant
                id <= size,
                workers@.len() == id,
                forall|i: int| 0 <= i < id ==> (#[trigger] workers@[i]).spec_id() == i,
                forall|i: int| 0 <= i < id ==> (#[trigger] workers@[i])@ == WorkerState::Waiting,
            decreases size - id,
        {
            workers.push(Worker::new(id));
            id += 1;
        }
        let pool = ThreadPool { workers, queue: VecDeque::new(), closing: false };
        proof {
            lemma_fresh_pool::<J>(size as nat);
            assert(pool@.workers =~= PoolModel::<J>::init(size as nat).workers);
        }
        Ok(pool)
    }

    /// The number of workers that the pool was made with.
    pub fn size(&self) -> (size: usize)
        ensures
            size == self@.size(),
    {
        self.workers.len()
    }

    /// The number of messages that are queued.
    pub fn pending(&self) -> (pending: usize)
        ensures
            pending == self@.queue.len(),
    {
        self.queue.len()
    }

    /// Whether shutdown has begun.
    pub fn is_closing(&self) -> (closing: bool)
        ensures
            closing == self@.closing,
    {
        self.closing
    }

    /// The state of the worker of the given number, if there is one.
    pub fn state_of(&self, worker: usize) -> (state: Option<WorkerState>)
        ensures
            state == if self@.has_worker(worker as int) {
                Some(self@.workers[worker as int])
            } else {
                None
            },
    {
        if worker < self.workers.len() {
            Some(self.workers[worker].state())
        } else {
            None
        }
    }

    /// Whether a job that is offered now would be accepted: some worker's
    /// thread has not gone yet.
    pub fn accepts(&self) -> (open: bool)
        ensures
            open == self@.accepts(),
    {
        let mut i: usize = 0;
        while i < self.workers.len()
            invariant
                i <= self.workers@.len(),
                forall|k: int| 0 <= k < i ==> (#[trigger] self@.workers[k]).is_gone(),
            decreases self.workers@.len() - i,
        {
            match self.workers[i].state() {
                WorkerState::Exited | WorkerState::Faulted => {},
                _ => {
                    assert(!self@.workers[i as int].is_gone());
                    return true;
                },
            }
            i += 1;
        }
        false
    }

    /// Whether every worker's thread has gone.
    pub fn is_finished(&self) -> (finished: bool)
        ensures
            finished == self@.all_gone(),
    {
        !self.accepts()
    }

    /// Hands in a job. It joins the back of the queue, to be run by exactly
    /// one worker; the call does not wait for that. Where every worker's
    /// thread has gone, the job is handed back and nothing changes.
    ///
    /// A job that is handed in after shutdown has begun stands behind the
    /// terminate signals: it is accepted while a worker's thread remains, but
    /// no worker may be left to take it.
    pub fn execute(&mut self, job: J) -> (accepted: Result<(), SubmitError<J>>)
        requires
            old(self).wf(),
        ensures
            final(self).wf(),
            final(self)@ == old(self)@.submit(job),
            accepted == old(self)@.submit_reply(job),
    {
        if !self.accepts() {
            return Err(SubmitError { job });
        }
        proof {
            lemma_step_keeps_order(self@, Event::Submit(job));
        }
        self.queue.push_back(Message::NewJob(job));
        Ok(())
    }

    /// Begins shutdown: queues one terminate signal per worker, behind
    /// everything that is queued already, and returns the numbers of the
    /// workers whose threads are to be waited for, in that order. A second
    /// shutdown changes nothing and returns no number.
    pub fn shutdown(&mut self) -> (joins: Vec<usize>)
        requires
            old(self).wf(),
        ensures
            final(self).wf(),
            final(self)@ == old(self)@.shut_down(),
            joins@ == old(self)@.join_order(),
    {
        let mut joins: Vec<usize> = Vec::new();
        if self.closing {
            return joins;
        }
        proof {
            lemma_step_keeps_order(self@, Event::ShutDown);
        }
        let size = self.workers.len();
        let mut id: usize = 0;
        while id < size
            invariant
                id <= size,
                size == self.workers@.len(),
                self.workers == old(self).workers,
                self.closing == old(self).closing,
                self.queue@ == old(self).queue@ + signals::<J>(id as nat),
                joins@ == Seq::new(id as nat, |i: int| i as usize),
            decreases size - id,
        {
            self.queue.push_back(Message::Terminate);
            joins.push(id);
            proof {
                assert(signals::<J>((id + 1) as nat) =~= signals::<J>(id as nat).push(
                    Message::Terminate,
                ));
                assert(self.queue@ =~= old(self).queue@ + signals::<J>((id + 1) as nat));
                assert(joins@ =~= Seq::new((id + 1) as nat, |i: int| i as usize));
            }
            id += 1;
        }
        self.closing = true;
        joins
    }

    /// The waiting worker of the given number takes the message at the front
    /// of the queue and is told what to do: run the job that it holds, leave
    /// the loop on a terminate signal, or keep waiting where nothing is
    /// queued. The message is gone from the queue, so that no other worker
    /// gets it.
    pub fn receive(&mut self, worker: usize) -> (told: Result<Action<J>, WorkerError>)
        requires
            old(self).wf(),
        ensures
            final(self).wf(),
            final(self)@ == old(self)@.receive(worker as int),
            told == old(self)@.receive_reply(worker as int),
    {
        if worker >= self.workers.len() {
            return Err(WorkerError::UnknownWorker);
        }
        let record = self.workers[worker];
        match record.state() {
            WorkerState::Waiting => {},
            _ => {
                return Err(WorkerError::WrongState);
            },
        }
        proof {
            lemma_step_keeps_order(self@, Event::Receive(worker as int));
        }
        match self.queue.pop_front() {
            None => Ok(Action::Wait),
            Some(Message::NewJob(job)) => {
                self.workers.set(worker, record.moved_to(WorkerState::Executing));
                proof {
                    assert(self@.workers =~= old(self)@.workers.update(
                        worker as int,
                        WorkerState::Executing,
                    ));
                }
                Ok(Action::Run(job))
            },
            Some(Message::Terminate) => {
                self.workers.set(worker, record.moved_to(WorkerState::Terminating));
                proof {
                    assert(self@.workers =~= old(self)@.workers.update(
                        worker as int,
                        WorkerState::Terminating,
                    ));
                }
                Ok(Action::Exit)
            },
        }
    }

    /// The worker of the given number has run its job to the end and waits
    /// again.
    pub fn complete(&mut self, worker: usize) -> (done: Result<(), WorkerError>)
        requires
            old(self).wf(),
        ensures
            final(self).wf(),
            final(self)@ == old(self)@.complete(worker as int),
            done == old(self)@.complete_reply(worker as int),
    {
        if worker >= self.workers.len() {
            return Err(WorkerError::UnknownWorker);
        }
        let record = self.workers[worker];
        match record.state() {
            WorkerState::Executing => {},
            _ => {
                return Err(WorkerError::WrongState);
            },
        }
        proof {
            lemma_step_keeps_order(self@, Event::Complete(worker as int));
        }
        self.workers.set(worker, record.moved_to(WorkerState::Waiting));
        proof {
            assert(self@.workers =~= old(self)@.workers.update(
                worker as int,
                WorkerState::Waiting,
            ));
        }
        Ok(())
    }

    /// The worker of the given number was ended by a fault while it waited
    /// or ran a job. The pool has one worker less from now on.
    pub fn fault(&mut self, worker: usize) -> (done: Result<(), WorkerError>)
        requires
            old(self).wf(),
        ensures
            final(self).wf(),
            final(self)@ == old(self)@.fault(worker as int),
            done == old(self)@.fault_reply(worker as int),
    {
        if worker >= self.workers.len() {
            return Err(WorkerError::UnknownWorker);
        }
        let record = self.workers[worker];
        match record.state() {
            WorkerState::Waiting | WorkerState::Executing => {},
            _ => {
                return Err(WorkerError::WrongState);
            },
        }
        proof {
            lemma_step_keeps_order(self@, Event::Fault(worker as int));
        }
        self.workers.set(worker, record.moved_to(WorkerState::Faulted));
        proof {
            assert(self@.workers =~= old(self)@.workers.update(
                worker as int,
                WorkerState::Faulted,
            ));
        }
        Ok(())
    }

    /// The worker of the given number, which had left its loop on a
    /// terminate signal, has returned.
    pub fn retire(&mut self, worker: usize) -> (done: Result<(), WorkerError>)
        requires
            old(self).wf(),
        ensures
            final(self).wf(),
            final(self)@ == old(self)@.retire(worker as int),
            done == old(self)@.retire_reply(worker as int),
    {
        if worker >= self.workers.len() {
            return Err(WorkerError::UnknownWorker);
        }
        let record = self.workers[worker];
        match record.state() {
            WorkerState::Terminating => {},
            _ => {
                return Err(WorkerError::WrongState);
            },
        }
        proof {
            lemma_step_keeps_order(self@, Event::Retire(worker as int));
        }
        self.workers.set(worker, record.moved_to(WorkerState::Exited));
        proof {
            assert(self@.workers =~= old(self)@.workers.update(
                worker as int,
                WorkerState::Exited,
            ));
        }
        Ok(())
    }
}

} // verus!
