//! What travels through the dispatch queue, and what a worker is told to do
//! with it.

use vstd::prelude::*;

verus! {

/// One entry of the dispatch queue.
pub enum Message<J> {
    /// A job that one worker is to run.
    NewJob(J),
    /// The signal that tells the worker that receives it to leave its loop.
    Terminate,
}

/// What a worker does after it has looked at the front of the queue.
pub enum Action<J> {
    /// Run this job to completion, then report back and wait again.
    Run(J),
    /// Leave the loop: a terminate signal was received.
    Exit,
    /// Nothing is queued: keep waiting.
    Wait,
}

/// The property of being a terminate signal.
pub open spec fn is_signal<J>() -> spec_fn(Message<J>) -> bool {
    |m: Message<J>| m is Terminate
}

/// The jobs that a stretch of the queue holds, in queue order.
pub open spec fn jobs_of<J>(queue: Seq<Message<J>>) -> Seq<J>
    decreases queue.len(),
{
    if queue.len() == 0 {
        Seq::empty()
    } else {
        match queue.last() {
            Message::NewJob(job) => jobs_of(queue.drop_last()).push(job),
            Message::Terminate => jobs_of(queue.drop_last()),
        }
    }
}

/// The jobs of a single message: the job itself, or nothing for a signal.
pub open spec fn job_in<J>(message: Message<J>) -> Seq<J> {
    match message {
        Message::NewJob(job) => seq![job],
        Message::Terminate => Seq::empty(),
    }
}

/// A message at the back adds its job behind the jobs already queued.
pub proof fn lemma_jobs_push<J>(queue: Seq<Message<J>>, message: Message<J>)
    ensures
        jobs_of(queue.push(message)) == jobs_of(queue) + job_in(message),
{
    assert(queue.push(message).drop_last() =~= queue);
    assert(jobs_of(queue.push(message)) =~= jobs_of(queue) + job_in(message));
}

/// The jobs of two stretches joined are the jobs of the first, then those of
/// the second.
pub proof fn lemma_jobs_concat<J>(a: Seq<Message<J>>, b: Seq<Message<J>>)
    ensures
        jobs_of(a + b) == jobs_of(a) + jobs_of(b),
    decreases b.len(),
{
    if b.len() == 0 {
        assert(a + b =~= a);
        assert(jobs_of(a) + jobs_of(b) =~= jobs_of(a));
    } else {
        assert((a + b).drop_last() =~= a + b.drop_last());
        assert((a + b).last() == b.last());
        lemma_jobs_concat(a, b.drop_last());
        assert(jobs_of(a + b) =~= jobs_of(a) + jobs_of(b));
    }
}

/// The message at the front holds the first of the queued jobs, if it holds
/// a job at all.
pub proof fn lemma_jobs_drop_first<J>(queue: Seq<Message<J>>)
    requires
        queue.len() > 0,
    ensures
        jobs_of(queue) == job_in(queue[0]) + jobs_of(queue.drop_first()),
{
    let head = seq![queue[0]];
    assert(queue =~= head + queue.drop_first());
    lemma_jobs_concat(head, queue.drop_first());
    assert(head =~= Seq::<Message<J>>::empty().push(queue[0]));
    lemma_jobs_push(Seq::<Message<J>>::empty(), queue[0]);
    assert(jobs_of(head) =~= job_in(queue[0]));
}

} // verus!
