use crate::message::{all_tasks, kills, lemma_tasks_of_kills, lemma_tasks_of_push,
    lemma_tasks_of_skip_head, tasks_of, Message};
use std::collections::VecDeque;
use vstd::prelude::*;

verus! {

/// Why a pool could not be set up.
#[derive(Debug, PartialEq, Eq, Structural)]
pub enum PoolError {
    /// A pool of no workers would accept tasks and never run them.
    ZeroWorkers,
}

/// The abstract state of a pool's shared queue.
pub struct PoolView<T> {
    /// The messages waiting, head first.
    pub queue: Seq<Message<T>>,
    /// The number of workers.
    pub pool_size: nat,
    /// Whether teardown has begun.
    pub shutting_down: bool,
    /// The number of workers that have taken their `Kill` and left.
    pub stopped: nat,
    /// The number of `Kill` messages ever put on the queue.
    pub kills_sent: nat,
    /// Every task ever submitted, in submission order.
    pub submitted: Seq<T>,
    /// Every task handed to a worker, in the order they were handed out.
    pub dispatched: Seq<T>,
}

impl<T> PoolView<T> {
    /// The number of workers still running their loop.
    pub open spec fn live(&self) -> int {
        self.pool_size - self.stopped
    }

    /// How many messages at the head of the queue are tasks once teardown
    /// has begun (the rest are sentinels).
    pub open spec fn pending(&self) -> int {
        self.queue.len() - self.live()
    }

    /// The queue is FIFO with no task lost or repeated; before teardown it
    /// holds only tasks; after, it holds the tasks submitted earlier and then
    /// one `Kill` for each worker still running, and no task is left once
    /// any worker has stopped.
    pub open spec fn wf(&self) -> bool {
        &&& self.pool_size >= 1
        &&& self.submitted == self.dispatched + tasks_of(self.queue)
        &&& self.kills_sent == if self.shutting_down { self.pool_size } else { 0 }
        &&& if !self.shutting_down {
            &&& self.stopped == 0
            &&& all_tasks(self.queue)
        } else {
            &&& self.stopped <= self.pool_size
            &&& self.pending() >= 0
            &&& all_tasks(self.queue.take(self.pending()))
            &&& self.queue.skip(self.pending()) == kills::<T>(self.live() as nat)
            &&& self.stopped > 0 ==> self.pending() == 0
        }
    }
}

/// What the pool's lock guards: the message queue and the bookkeeping of the
/// shutdown protocol.
pub struct PoolState<T> {
    queue: VecDeque<Message<T>>,
    pool_size: u32,
    shutting_down: bool,
    stopped: u32,
    kills_sent: Ghost<nat>,
    submitted: Ghost<Seq<T>>,
    dispatched: Ghost<Seq<T>>,
}

impl<T> View for PoolState<T> {
    type V = PoolView<T>;

    closed spec fn view(&self) -> PoolView<T> {
        PoolView {
            queue: self.queue@,
            pool_size: self.pool_size as nat,
            shutting_down: self.shutting_down,
            stopped: self.stopped as nat,
            kills_sent: self.kills_sent@,
            submitted: self.submitted@,
            dispatched: self.dispatched@,
        }
    }
}

impl<T> PoolState<T> {
    /// The state of a fresh pool of `pool_size` workers: nothing queued,
    /// nothing submitted, nobody stopped. A size of zero is refused.
    pub fn new(pool_size: u32) -> (r: Result<Self, PoolError>)
        ensures
            pool_size == 0 <==> r == Err::<Self, PoolError>(PoolError::ZeroWorkers),
            r matches Ok(s) ==> {
                &&& s@.wf()
                &&& s@.queue == Seq::<Message<T>>::empty()
                &&& s@.pool_size == pool_size
                &&& !s@.shutting_down
                &&& s@.stopped == 0
                &&& s@.kills_sent == 0
                &&& s@.submitted == Seq::<T>::empty()
                &&& s@.dispatched == Seq::<T>::empty()
            },
    {
        if pool_size == 0 {
            return Err(PoolError::ZeroWorkers);
        }
        let s = PoolState {
            queue: VecDeque::new(),
            pool_size,
            shutting_down: false,
            stopped: 0,
            kills_sent: Ghost(0),
            submitted: Ghost(Seq::empty()),
            dispatched: Ghost(Seq::empty()),
        };
        proof {
            assert(tasks_of(s.queue@) =~= Seq::<T>::empty());
            assert(s@.dispatched + tasks_of(s@.queue) =~= s@.submitted);
        }
        Ok(s)
    }

    /// Appends `task` to the tail of the queue. Tasks cannot be submitted
    /// once teardown has begun.
    pub fn submit(&mut self, task: T)
        requires
            old(self)@.wf(),
            !old(self)@.shutting_down,
        ensures
            final(self)@.wf(),
            final(self)@ == (PoolView {
                queue: old(self)@.queue.push(Message::Task(task)),
                submitted: old(self)@.submitted.push(task),
                ..old(self)@
            }),
    {
        proof {
            lemma_tasks_of_push(self.queue@, Message::Task(task));
            assert(self.dispatched@ + tasks_of(self.queue@).push(task)
                =~= (self.dispatched@ + tasks_of(self.queue@)).push(task));
        }
        self.queue.push_back(Message::Task(task));
        self.submitted = Ghost(self.submitted@.push(task));
        proof {
            let q = self.queue@;
            assert forall|i: int| 0 <= i < q.len() implies (#[trigger] q[i]) is Task by {
                if i < q.len() - 1 {
                    assert(q[i] == old(self)@.queue[i]);
                }
            }
        }
    }

    /// Begins teardown: appends exactly one `Kill` for each worker, after
    /// every task already queued.
    pub fn begin_shutdown(&mut self)
        requires
            old(self)@.wf(),
            !old(self)@.shutting_down,
        ensures
            final(self)@.wf(),
            final(self)@ == (PoolView {
                queue: old(self)@.queue + kills::<T>(old(self)@.pool_size),
                shutting_down: true,
                kills_sent: old(self)@.kills_sent + old(self)@.pool_size,
                ..old(self)@
            }),
    {
        let ghost q0 = self.queue@;
        let mut i: u32 = 0;
        while i < self.pool_size
            invariant
                0 <= i <= self.pool_size,
                self.pool_size == old(self).pool_size,
                self.queue@ == q0 + kills::<T>(i as nat),
                self.shutting_down == old(self).shutting_down,
                self.stopped == old(self).stopped,
                self.kills_sent == old(self).kills_sent,
                self.submitted == old(self).submitted,
                self.dispatched == old(self).dispatched,
            decreases self.pool_size - i,
        {
            self.queue.push_back(Message::Kill);
            i = i + 1;
            assert(self.queue@ =~= q0 + kills::<T>(i as nat));
        }
        self.shutting_down = true;
        self.kills_sent = Ghost(self.kills_sent@ + self.pool_size as nat);
        proof {
            let v = self@;
            lemma_tasks_of_kills(q0, v.pool_size);
            assert(v.pending() == q0.len());
            assert(v.queue.take(v.pending()) =~= q0);
            assert(v.queue.skip(v.pending()) =~= kills::<T>(v.pool_size));
        }
    }

    /// Removes the head of the queue, if any. A worker that takes a `Kill`
    /// is counted as stopped; a task taken is counted as handed out.
    pub fn take(&mut self) -> (r: Option<Message<T>>)
        requires
            old(self)@.wf(),
        ensures
            final(self)@.wf(),
            r is None <==> old(self)@.queue.len() == 0,
            r is None ==> final(self)@ == old(self)@,
            r matches Some(m) ==> {
                &&& m == old(self)@.queue[0]
                &&& final(self)@.queue == old(self)@.queue.skip(1)
                &&& final(self)@.pool_size == old(self)@.pool_size
                &&& final(self)@.shutting_down == old(self)@.shutting_down
                &&& final(self)@.kills_sent == old(self)@.kills_sent
                &&& final(self)@.submitted == old(self)@.submitted
                &&& match m {
                    Message::Task(t) => {
                        &&& final(self)@.dispatched == old(self)@.dispatched.push(t)
                        &&& final(self)@.stopped == old(self)@.stopped
                    },
                    Message::Kill => {
                        &&& final(self)@.dispatched == old(self)@.dispatched
                        &&& final(self)@.stopped == old(self)@.stopped + 1
                    },
                }
            },
    {
        let ghost v0 = self@;
        let head = self.queue.pop_front();
        match head {
            None => {},
            Some(Message::Task(t)) => {
                proof {
                    lemma_tasks_of_skip_head(v0.queue);
                    assert(v0.dispatched + (seq![t] + tasks_of(self.queue@))
                        =~= v0.dispatched.push(t) + tasks_of(self.queue@));
                }
                self.dispatched = Ghost(self.dispatched@.push(t));
                proof {
                    let v = self@;
                    if v.shutting_down {
                        if v0.pending() == 0 {
                            assert(v0.queue.skip(0)[0] == v0.queue[0]);
                        }
                        assert(v0.pending() > 0);
                        assert(v.pending() == v0.pending() - 1);
                        assert(v.queue.take(v.pending()) =~= v0.queue.take(v0.pending()).skip(1));
                        assert(v.queue.skip(v.pending()) =~= v0.queue.skip(v0.pending()));
                    } else {
                        assert(forall|i: int| 0 <= i < v.queue.len() ==> v.queue[i] == v0.queue[i + 1]);
                    }
                }
                return Some(Message::Task(t));
            },
            Some(Message::Kill) => {
                proof {
                    lemma_tasks_of_skip_head(v0.queue);
                    if !v0.shutting_down {
                        assert(v0.queue[0] is Task);
                    }
                    if v0.pending() > 0 {
                        assert(v0.queue.take(v0.pending())[0] == v0.queue[0]);
                    }
                    assert(v0.pending() == 0);
                    assert(v0.queue.skip(0) =~= v0.queue);
                }
                self.stopped = self.stopped + 1;
                proof {
                    let v = self@;
                    assert(v.queue.skip(0) =~= kills::<T>(v.live() as nat));
                    assert(v.queue.take(0) =~= Seq::<Message<T>>::empty());
                }
                return Some(Message::Kill);
            },
        }
        None
    }

    pub fn pool_size(&self) -> (r: u32)
        ensures
            r == self@.pool_size,
    {
        self.pool_size
    }

    pub fn is_shutting_down(&self) -> (r: bool)
        ensures
            r == self@.shutting_down,
    {
        self.shutting_down
    }

    pub fn workers_stopped(&self) -> (r: u32)
        ensures
            r == self@.stopped,
    {
        self.stopped
    }

    /// The number of messages waiting.
    pub fn len(&self) -> (r: usize)
        ensures
            r == self@.queue.len(),
    {
        self.queue.len()
    }

    pub fn is_empty(&self) -> (r: bool)
        ensures
            r == (self@.queue.len() == 0),
    {
        self.queue.len() == 0
    }
}

} // verus!
