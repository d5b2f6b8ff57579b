//! The errors that the pool reports.

use vstd::prelude::*;

verus! {

/// Returned when a pool is asked for with no workers at all.
#[derive(Debug, Clone, Copy, PartialEq, Eq, Structural)]
pub struct PoolCreationError;

impl PoolCreationError {
    /// The text shown to a user for this error.
    pub fn message(&self) -> (text: String)
        ensures
            text@ == "Could not create ThreadPool, the size must be greater than zero!"@,
    {
        "Could not create ThreadPool, the size must be greater than zero!".to_string()
    }
}

/// Returned when a job is offered after every worker's thread has gone:
/// nothing is left to run it. The job is handed back.
pub struct SubmitError<J> {
    /// The job that was not accepted.
    pub job: J,
}

impl<J> SubmitError<J> {
    /// The text shown to a user for this error.
    pub fn message(&self) -> (text: String)
        ensures
            text@ == "Could not submit the job, the pool has no worker left to run it!"@,
    {
        "Could not submit the job, the pool has no worker left to run it!".to_string()
    }

    /// Gives the job back to the caller.
    pub fn into_job(self) -> (job: J)
        ensures
            job == self.job,
    {
        self.job
    }
}

/// Returned when a worker reports something that it cannot have done.
#[derive(Debug, Clone, Copy, PartialEq, Eq, Structural)]
pub enum WorkerError {
    /// The pool has no worker of that number.
    UnknownWorker,
    /// The worker is not in the state that the report starts from.
    WrongState,
}

impl WorkerError {
    /// The text shown to a user for this error.
    pub fn message(&self) -> (text: String)
        ensures
            text@ == match *self {
                WorkerError::UnknownWorker => "The pool has no worker of that number!"@,
                WorkerError::WrongState => "The worker is not in the state that this step starts from!"@,
            },
    {
        match self {
            WorkerError::UnknownWorker => "The pool has no worker of that number!".to_string(),
            WorkerError::WrongState => "The worker is not in the state that this step starts from!".to_string(),
        }
    }
}

} // verus!
