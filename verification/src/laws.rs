//! What holds of every pool, whatever happens to it.

use vstd::prelude::*;
use crate::count::{
    count, lemma_count_concat, lemma_count_disjoint, lemma_count_drop_first,
    lemma_count_extremes, lemma_count_push, lemma_count_update,
};
use crate::message::{
    is_signal, jobs_of, lemma_jobs_concat, lemma_jobs_drop_first, lemma_jobs_push,
    Message,
};
use crate::model::{signals, state_after, Event, PoolModel};
use crate::worker::{live, signalled, WorkerState};

verus! {

/// A run of terminate signals holds as many signals as it is long, and no
/// job.
pub proof fn lemma_signals<J>(n: nat)
    ensures
        signals::<J>(n).len() == n,
        count(signals::<J>(n), is_signal()) == n,
        jobs_of(signals::<J>(n)) == Seq::<J>::empty(),
    decreases n,
{
    let s = signals::<J>(n);
    lemma_count_extremes(s, is_signal());
    if n > 0 {
        assert(s.drop_last() =~= signals::<J>((n - 1) as nat));
        lemma_signals::<J>((n - 1) as nat);
    }
}

/// A fresh pool of at least one worker has every worker live and waiting,
/// an empty queue, and is in order.
pub proof fn lemma_fresh_pool<J>(size: nat)
    requires
        size >= 1,
    ensures
        PoolModel::<J>::init(size).inv(),
        PoolModel::<J>::init(size).size() == size,
        PoolModel::<J>::init(size).live_workers() == size,
        PoolModel::<J>::init(size).accepts(),
        PoolModel::<J>::init(size).queued_jobs() == Seq::<J>::empty(),
{
    let pool = PoolModel::<J>::init(size);
    lemma_count_extremes(pool.workers, signalled());
    lemma_count_extremes(pool.workers, live());
    assert(!pool.workers[0].is_gone());
}

/// No step changes the number of workers, and none takes shutdown back.
pub proof fn lemma_step_keeps_shape<J>(pool: PoolModel<J>, event: Event<J>)
    ensures
        pool.step(event).size() == pool.size(),
        pool.closing ==> pool.step(event).closing,
{
}

/// Every step keeps a pool in order.
pub proof fn lemma_step_keeps_order<J>(pool: PoolModel<J>, event: Event<J>)
    requires
        pool.inv(),
    ensures
        pool.step(event).inv(),
{
    let next = pool.step(event);
    match event {
        Event::Submit(job) => {
            lemma_count_push(pool.queue, Message::NewJob(job), is_signal());
        },
        Event::ShutDown => {
            if !pool.closing {
                lemma_signals::<J>(pool.size());
                lemma_count_concat(pool.queue, signals::<J>(pool.size()), is_signal());
            }
        },
        Event::Receive(worker) => {
            if pool.can_receive(worker) {
                lemma_count_drop_first(pool.queue, is_signal());
                lemma_count_update(
                    pool.workers,
                    worker,
                    state_after(pool.queue[0]),
                    signalled(),
                );
            }
        },
        Event::Complete(worker) => {
            if pool.worker_is(worker, WorkerState::Executing) {
                lemma_count_update(pool.workers, worker, WorkerState::Waiting, signalled());
            }
        },
        Event::Fault(worker) => {
            if pool.has_worker(worker) && pool.workers[worker].is_live() {
                lemma_count_update(pool.workers, worker, WorkerState::Faulted, signalled());
            }
        },
        Event::Retire(worker) => {
            if pool.worker_is(worker, WorkerState::Terminating) {
                lemma_count_update(pool.workers, worker, WorkerState::Exited, signalled());
            }
        },
    }
}

/// Over a step no job is lost and none is made: the jobs queued before it,
/// with the one it brought in, are the one it handed out, with the jobs
/// queued after it.
pub proof fn lemma_step_conserves_jobs<J>(pool: PoolModel<J>, event: Event<J>)
    requires
        pool.inv(),
    ensures
        pool.queued_jobs() + pool.taken_in(event) == pool.handed_out(event) + pool.step(
            event,
        ).queued_jobs(),
{
    let before = pool.queued_jobs();
    let after = pool.step(event).queued_jobs();
    match event {
        Event::Submit(job) => {
            if pool.accepts() {
                lemma_jobs_push(pool.queue, Message::NewJob(job));
            }
        },
        Event::ShutDown => {
            if !pool.closing {
                lemma_signals::<J>(pool.size());
                lemma_jobs_concat(pool.queue, signals::<J>(pool.size()));
            }
        },
        Event::Receive(worker) => {
            if pool.can_receive(worker) {
                lemma_jobs_drop_first(pool.queue);
            }
        },
        _ => {},
    }
    assert(before + pool.taken_in(event) =~= pool.handed_out(event) + after);
}

/// A run of events keeps a pool in order, with the workers it had.
pub proof fn lemma_run_keeps_order<J>(pool: PoolModel<J>, events: Seq<Event<J>>)
    requires
        pool.inv(),
    ensures
        pool.run(events).inv(),
        pool.run(events).size() == pool.size(),
        pool.closing ==> pool.run(events).closing,
    decreases events.len(),
{
    if events.len() > 0 {
        lemma_run_keeps_order(pool, events.drop_last());
        lemma_step_keeps_order(pool.run(events.drop_last()), events.last());
        lemma_step_keeps_shape(pool.run(events.drop_last()), events.last());
    }
}

/// Over any run of events every job is handed out at most once and none is
/// dropped: the jobs queued at the start, then those accepted, are those
/// handed to workers, then those still queued.
pub proof fn lemma_run_conserves_jobs<J>(pool: PoolModel<J>, events: Seq<Event<J>>)
    requires
        pool.inv(),
    ensures
        pool.queued_jobs() + pool.accepted(events) == pool.dispatched(events) + pool.run(
            events,
        ).queued_jobs(),
    decreases events.len(),
{
    if events.len() == 0 {
        assert(pool.queued_jobs() + pool.accepted(events) =~= pool.dispatched(events)
            + pool.run(events).queued_jobs());
    } else {
        let earlier = events.drop_last();
        let mid = pool.run(earlier);
        lemma_run_keeps_order(pool, earlier);
        lemma_run_conserves_jobs(pool, earlier);
        lemma_step_conserves_jobs(mid, events.last());
        let taken = mid.taken_in(events.last());
        let handed = mid.handed_out(events.last());
        assert(pool.queued_jobs() + (pool.accepted(earlier) + taken) =~= (pool.queued_jobs()
            + pool.accepted(earlier)) + taken);
        assert((pool.dispatched(earlier) + mid.queued_jobs()) + taken =~= pool.dispatched(
            earlier,
        ) + (mid.queued_jobs() + taken));
        assert(pool.dispatched(earlier) + (handed + pool.run(events).queued_jobs()) =~= (
        pool.dispatched(earlier) + handed) + pool.run(events).queued_jobs());
    }
}

/// On a fresh pool jobs are handed out in the order in which they were
/// accepted: what has been handed out is the front of what was accepted,
/// and the rest is what is queued.
pub proof fn lemma_jobs_leave_in_order<J>(size: nat, events: Seq<Event<J>>)
    requires
        size >= 1,
    ensures
        PoolModel::<J>::init(size).accepted(events) == PoolModel::<J>::init(size).dispatched(
            events,
        ) + PoolModel::<J>::init(size).run(events).queued_jobs(),
        PoolModel::<J>::init(size).dispatched(events).is_prefix_of(
            PoolModel::<J>::init(size).accepted(events),
        ),
{
    let pool = PoolModel::<J>::init(size);
    lemma_fresh_pool::<J>(size);
    lemma_run_conserves_jobs(pool, events);
    assert(pool.queued_jobs() + pool.accepted(events) =~= pool.accepted(events));
    let all = pool.dispatched(events) + pool.run(events).queued_jobs();
    assert(all.subrange(0, pool.dispatched(events).len() as int) =~= pool.dispatched(events));
}

/// Shutdown sends exactly one terminate signal per worker, behind
/// everything that was queued before it, and touches no job.
pub proof fn lemma_shutdown_signals_each_worker<J>(pool: PoolModel<J>)
    requires
        pool.inv(),
        !pool.closing,
    ensures
        pool.shut_down().closing,
        pool.shut_down().queue == pool.queue + signals::<J>(pool.size()),
        pool.queue.is_prefix_of(pool.shut_down().queue),
        pool.shut_down().queued_signals() == pool.size(),
        pool.shut_down().queued_jobs() == pool.queued_jobs(),
        pool.shut_down().workers == pool.workers,
{
    lemma_signals::<J>(pool.size());
    lemma_count_concat(pool.queue, signals::<J>(pool.size()), is_signal());
    lemma_jobs_concat(pool.queue, signals::<J>(pool.size()));
    assert(pool.queued_jobs() + Seq::<J>::empty() =~= pool.queued_jobs());
    assert(pool.shut_down().queue.subrange(0, pool.queue.len() as int) =~= pool.queue);
}

/// Once shutdown has begun, a terminate signal is queued for every worker
/// that is still in its loop: none of them waits in vain.
pub proof fn lemma_signal_for_every_live_worker<J>(pool: PoolModel<J>)
    requires
        pool.inv(),
        pool.closing,
    ensures
        pool.queued_signals() >= pool.live_workers(),
{
    lemma_count_disjoint(pool.workers, live(), signalled());
}

/// Once shutdown has begun and the last terminate signal has left the
/// queue, every worker has received one: none is waiting, none is running a
/// job, and none was lost to a fault.
pub proof fn lemma_drained_pool_has_stopped<J>(pool: PoolModel<J>)
    requires
        pool.inv(),
        pool.closing,
        pool.queued_signals() == 0,
    ensures
        forall|i: int| 0 <= i < pool.size() ==> (#[trigger] pool.workers[i]).is_signalled(),
        pool.live_workers() == 0,
{
    lemma_count_extremes(pool.workers, signalled());
    lemma_count_extremes(pool.workers, live());
    assert forall|i: int| 0 <= i < pool.workers.len() implies !live()(
        #[trigger] pool.workers[i],
    ) by {
        assert(signalled()(pool.workers[i]));
    }
}

/// Before shutdown the queue holds jobs only, and no worker has left its
/// loop but by a fault.
pub proof fn lemma_no_signal_before_shutdown<J>(pool: PoolModel<J>)
    requires
        pool.inv(),
        !pool.closing,
    ensures
        forall|i: int| 0 <= i < pool.queue.len() ==> (#[trigger] pool.queue[i]) is NewJob,
        forall|i: int| 0 <= i < pool.size() ==> !(#[trigger] pool.workers[i]).is_signalled(),
{
    lemma_count_extremes(pool.queue, is_signal());
    lemma_count_extremes(pool.workers, signalled());
    assert forall|i: int| 0 <= i < pool.queue.len() implies (#[trigger] pool.queue[i]) is NewJob by {
        assert(!is_signal()(pool.queue[i]));
    }
    assert forall|i: int| 0 <= i < pool.size() implies !(#[trigger] pool.workers[i]).is_signalled() by {
        assert(!signalled()(pool.workers[i]));
    }
}

/// How a pool stands between the start of shutdown and the first receipt of
/// a terminate signal: of the messages that were queued when shutdown began
/// the first `taken` have left the queue and the rest are still at its
/// front; behind them stand all the signals; behind those stand the jobs
/// that came `late`; and the jobs `handed` out since are those of the
/// messages that have left.
pub open spec fn before_first_signal<J>(
    at_start: Seq<Message<J>>,
    now: PoolModel<J>,
    handed: Seq<J>,
    taken: int,
    late: Seq<Message<J>>,
) -> bool {
    &&& 0 <= taken <= at_start.len()
    &&& now.queue == at_start.skip(taken) + signals::<J>(now.size()) + late
    &&& handed == jobs_of(at_start.take(taken))
    &&& count(late, is_signal()) == 0
}

/// From the start of shutdown on, either the pool stands as
/// `before_first_signal` says, or every job that was queued when shutdown
/// began has been handed out. The result tells which, with the number of
/// messages taken and the late jobs in the first case.
proof fn lemma_shutdown_progress<J>(pool: PoolModel<J>, events: Seq<Event<J>>) -> (at: (
    bool,
    int,
    Seq<Message<J>>,
))
    requires
        pool.inv(),
        !pool.closing,
    ensures
        pool.shut_down().run(events).inv(),
        pool.shut_down().run(events).closing,
        pool.shut_down().run(events).size() == pool.size(),
        at.0 ==> pool.queued_jobs().is_prefix_of(pool.shut_down().dispatched(events)),
        !at.0 ==> before_first_signal(
            pool.queue,
            pool.shut_down().run(events),
            pool.shut_down().dispatched(events),
            at.1,
            at.2,
        ),
    decreases events.len(),
{
    let start = pool.shut_down();
    lemma_step_keeps_order(pool, Event::ShutDown);
    lemma_run_keeps_order(start, events);
    if events.len() == 0 {
        let none = Seq::<Message<J>>::empty();
        assert(pool.queue.skip(0) =~= pool.queue);
        assert(start.queue =~= pool.queue.skip(0) + signals::<J>(start.size()) + none);
        assert(pool.queue.take(0) =~= Seq::<Message<J>>::empty());
        (false, 0, none)
    } else {
        let earlier = events.drop_last();
        let event = events.last();
        let mid = start.run(earlier);
        let end = start.run(events);
        let handed = start.dispatched(earlier);
        let was = lemma_shutdown_progress(pool, earlier);
        let taken = was.1;
        let late = was.2;
        let size = pool.size();
        lemma_run_keeps_order(start, earlier);
        lemma_signals::<J>(size);
        if was.0 {
            let all = handed + mid.handed_out(event);
            assert(all.subrange(0, pool.queued_jobs().len() as int) =~= handed.subrange(
                0,
                pool.queued_jobs().len() as int,
            ));
            (true, 0, late)
        } else if event is Submit && mid.accepts() {
            let later = late.push(Message::NewJob(event->Submit_0));
            lemma_count_push(late, Message::NewJob(event->Submit_0), is_signal());
            assert(end.queue =~= pool.queue.skip(taken) + signals::<J>(size) + later);
            assert(handed + mid.handed_out(event) =~= handed);
            (false, taken, later)
        } else if event is Receive && mid.can_receive(event->Receive_0) {
            if taken < pool.queue.len() {
                assert(mid.queue[0] == pool.queue[taken]);
                assert(end.queue =~= pool.queue.skip(taken + 1) + signals::<J>(size) + late);
                assert(pool.queue.take(taken + 1) =~= pool.queue.take(taken).push(
                    pool.queue[taken],
                ));
                lemma_jobs_push(pool.queue.take(taken), pool.queue[taken]);
                (false, taken + 1, late)
            } else {
                assert(mid.queue[0] == signals::<J>(size)[0]);
                assert(pool.queue.take(taken) =~= pool.queue);
                assert(handed + mid.handed_out(event) =~= handed);
                assert(handed.subrange(0, handed.len() as int) =~= handed);
                (true, 0, late)
            }
        } else {
            assert(end.queue == mid.queue);
            assert(handed + mid.handed_out(event) =~= handed);
            (false, taken, late)
        }
    }
}

/// No job is left behind at shutdown: once any worker has received a
/// terminate signal, every job that was queued when shutdown began has been
/// handed to a worker, in queue order, whatever happened in between.
pub proof fn lemma_no_job_is_left_behind<J>(pool: PoolModel<J>, events: Seq<Event<J>>)
    requires
        pool.inv(),
        !pool.closing,
        pool.shut_down().run(events).queued_signals() < pool.size(),
    ensures
        pool.queued_jobs().is_prefix_of(pool.shut_down().dispatched(events)),
{
    let at = lemma_shutdown_progress(pool, events);
    if !at.0 {
        let end = pool.shut_down().run(events);
        let front = pool.queue.skip(at.1);
        lemma_signals::<J>(pool.size());
        lemma_count_concat(front + signals::<J>(pool.size()), at.2, is_signal());
        lemma_count_concat(front, signals::<J>(pool.size()), is_signal());
    }
}

} // verus!
