use crate::message::{all_tasks, kills, tasks_of};
use crate::pool::PoolView;
use vstd::prelude::*;

verus! {

/// Once teardown has begun and every worker has taken its `Kill`, the queue
/// is empty and every task submitted was handed to a worker exactly once:
/// the tasks handed out are the tasks submitted, one for one, none lost and
/// none repeated.
pub proof fn lemma_teardown_runs_every_task<T>(v: PoolView<T>)
    requires
        v.wf(),
        v.shutting_down,
        v.stopped == v.pool_size,
    ensures
        v.queue.len() == 0,
        v.dispatched == v.submitted,
{
    assert(v.queue.skip(v.pending()).len() == 0);
    assert(tasks_of(v.queue) =~= Seq::<T>::empty());
    assert(v.dispatched + Seq::<T>::empty() =~= v.dispatched);
}

/// During teardown a worker that has not stopped always finds a message, so
/// it never waits forever; and the queue holds exactly the pending tasks and
/// one `Kill` for each running worker, so teardown ends after as many takes
/// as the queue is long, with every worker stopped.
pub proof fn lemma_teardown_progress<T>(v: PoolView<T>)
    requires
        v.wf(),
        v.shutting_down,
    ensures
        v.stopped < v.pool_size <==> v.queue.len() > 0,
        v.queue.len() == v.pending() + (v.pool_size - v.stopped),
{
    if v.stopped == v.pool_size {
        assert(v.queue.skip(v.pending()).len() == 0);
    }
}

/// Tasks are handed out in the order they were submitted: what the workers
/// have received is always a prefix of what was submitted. With a single
/// worker, tasks therefore run in submission order.
pub proof fn lemma_dispatch_in_submission_order<T>(v: PoolView<T>)
    requires
        v.wf(),
    ensures
        v.dispatched.len() <= v.submitted.len(),
        v.submitted.take(v.dispatched.len() as int) == v.dispatched,
{
    assert(v.submitted.take(v.dispatched.len() as int) =~= v.dispatched);
}

/// Exactly `pool_size` `Kill` messages are ever made, all at the start of
/// teardown, however many tasks were submitted: before teardown there are
/// none; after, the ones not yet taken sit at the tail of the queue, one per
/// running worker.
pub proof fn lemma_kills_sent_once<T>(v: PoolView<T>)
    requires
        v.wf(),
    ensures
        !v.shutting_down ==> v.kills_sent == 0 && all_tasks(v.queue),
        v.shutting_down ==> {
            &&& v.kills_sent == v.pool_size
            &&& v.queue.skip(v.pending()) == kills::<T>((v.kills_sent - v.stopped) as nat)
        },
{
}

} // verus!
