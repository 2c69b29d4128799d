use vstd::prelude::*;

verus! {

/// An element of the pool's queue: a unit of work, or the sentinel that
/// tells exactly one worker to leave its loop.
pub enum Message<T> {
    Task(T),
    Kill,
}

impl<T> Message<T> {
    pub fn is_kill(&self) -> (r: bool)
        ensures
            r == (*self is Kill),
    {
        match self {
            Message::Task(_) => false,
            Message::Kill => true,
        }
    }
}

/// The tasks of `s`, in queue order, with the sentinels left out.
pub open spec fn tasks_of<T>(s: Seq<Message<T>>) -> Seq<T>
    decreases s.len(),
{
    if s.len() == 0 {
        Seq::empty()
    } else {
        let rest = tasks_of(s.drop_last());
        match s.last() {
            Message::Task(t) => rest.push(t),
            Message::Kill => rest,
        }
    }
}

/// `n` sentinels in a row.
pub open spec fn kills<T>(n: nat) -> Seq<Message<T>> {
    Seq::new(n, |i: int| Message::Kill)
}

/// Every element of `s` is a task.
pub open spec fn all_tasks<T>(s: Seq<Message<T>>) -> bool {
    forall|i: int| 0 <= i < s.len() ==> (#[trigger] s[i]) is Task
}

pub proof fn lemma_tasks_of_push<T>(s: Seq<Message<T>>, m: Message<T>)
    ensures
        tasks_of(s.push(m)) == match m {
            Message::Task(t) => tasks_of(s).push(t),
            Message::Kill => tasks_of(s),
        },
{
    assert(s.push(m).drop_last() =~= s);
}

/// Taking the head off `s` takes its task, if it is one, off the front of
/// `tasks_of(s)`.
pub proof fn lemma_tasks_of_skip_head<T>(s: Seq<Message<T>>)
    requires
        s.len() > 0,
    ensures
        tasks_of(s) == match s[0] {
            Message::Task(t) => seq![t] + tasks_of(s.subrange(1, s.len() as int)),
            Message::Kill => tasks_of(s.subrange(1, s.len() as int)),
        },
    decreases s.len(),
{
    let tail = s.subrange(1, s.len() as int);
    if s.len() == 1 {
        assert(tail =~= Seq::<Message<T>>::empty());
        assert(s.drop_last() =~= Seq::<Message<T>>::empty());
        match s[0] {
            Message::Task(t) => assert(seq![t] + Seq::<T>::empty() =~= Seq::<T>::empty().push(t)),
            Message::Kill => {},
        }
    } else {
        let init = s.drop_last();
        lemma_tasks_of_skip_head(init);
        assert(init.subrange(1, init.len() as int) =~= tail.drop_last());
        assert(tail.last() == s.last());
        match s[0] {
            Message::Task(t) => {
                match s.last() {
                    Message::Task(u) => {
                        assert(seq![t] + tasks_of(tail.drop_last()).push(u)
                            =~= (seq![t] + tasks_of(tail.drop_last())).push(u));
                    },
                    Message::Kill => {},
                }
            },
            Message::Kill => {},
        }
    }
}

/// Sentinels appended to a queue add no task to it.
pub proof fn lemma_tasks_of_kills<T>(s: Seq<Message<T>>, n: nat)
    ensures
        tasks_of(s + kills::<T>(n)) == tasks_of(s),
    decreases n,
{
    if n == 0 {
        assert(s + kills::<T>(0) =~= s);
    } else {
        lemma_tasks_of_kills(s, (n - 1) as nat);
        assert(s + kills::<T>(n) =~= (s + kills::<T>((n - 1) as nat)).push(Message::Kill));
        lemma_tasks_of_push(s + kills::<T>((n - 1) as nat), Message::Kill);
    }
}

} // verus!
