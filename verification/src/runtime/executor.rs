use vstd::prelude::*;
use std::collections::VecDeque;

verus! {

/// The executor's bookkeeping over futures of type `F`: one slot per spawned
/// future, a queue of the woken ones, oldest wake first, and the number of
/// futures not yet finished.
///
/// A round of the executor is: take the next woken id (`pop_woken_task`),
/// take its future out of its slot (`take_task`), poll it, and report the
/// outcome (`finish_poll`). Wakers report wakes with `wake`.
pub struct Executor<F> {
    tasks: Vec<Option<F>>,
    queue: VecDeque<usize>,
    in_queue: Vec<bool>,
    next_task_id: usize,
    task_count: usize,
}

/// Whether `s` holds no value twice.
pub open spec fn no_duplicates(s: Seq<usize>) -> bool {
    forall|i: int, j: int| 0 <= i < j < s.len() ==> s[i] != s[j]
}

/// The wake queue after a wake of `id`: `id` joins the back unless it is
/// already queued.
pub open spec fn woken_after(q: Seq<usize>, id: usize) -> Seq<usize> {
    if q.contains(id) {
        q
    } else {
        q.push(id)
    }
}

/// What the executor's run loop does after a round.
#[derive(Debug, Clone, Copy, PartialEq, Eq, Structural)]
pub enum RunStep {
    /// A future was polled: run another round.
    PollAgain,
    /// Every future finished: leave the loop.
    Finish,
    /// Nothing was woken and futures remain: block the hosting task until a
    /// waker fires, then run another round.
    BlockHost,
}

impl<F> Executor<F> {
    /// The future slots, indexed by task id; a slot is empty once its future
    /// finished or while it is being polled.
    pub closed spec fn slots(&self) -> Seq<Option<F>> {
        self.tasks@
    }

    /// The woken task ids, oldest wake first.
    pub closed spec fn woken(&self) -> Seq<usize> {
        self.queue@
    }

    /// The id the next spawned future gets.
    pub closed spec fn spec_next_task_id(&self) -> usize {
        self.next_task_id
    }

    /// The number of futures spawned and not finished.
    pub closed spec fn spec_task_count(&self) -> usize {
        self.task_count
    }

    /// The wake flags agree with the queue, which holds every id once at most,
    /// and there is a slot for every id given out.
    pub closed spec fn wf(&self) -> bool {
        &&& self.tasks@.len() == self.next_task_id
        &&& no_duplicates(self.queue@)
        &&& forall|i: int| 0 <= i < self.queue@.len() ==> (#[trigger] self.queue@[i]) < self.in_queue@.len()
            && self.in_queue@[self.queue@[i] as int]
        &&& forall|j: usize| j < self.in_queue@.len() && #[trigger] self.in_queue@[j as int] ==> self.queue@.contains(j)
    }

    /// An executor with no futures.
    pub fn new() -> (r: Self)
        ensures
            r.wf(),
            r.slots().len() == 0,
            r.woken().len() == 0,
            r.spec_next_task_id() == 0,
            r.spec_task_count() == 0,
    {
        Executor { tasks: Vec::new(), queue: VecDeque::new(), in_queue: Vec::new(), next_task_id: 0, task_count: 0 }
    }

    /// Records a wake of task `id`: it joins the back of the wake queue
    /// unless it is already queued.
    pub fn wake(&mut self, id: usize)
        requires
            old(self).wf(),
            id < usize::MAX,
        ensures
            final(self).wf(),
            final(self).woken() == woken_after(old(self).woken(), id),
            final(self).slots() == old(self).slots(),
            final(self).spec_next_task_id() == old(self).spec_next_task_id(),
            final(self).spec_task_count() == old(self).spec_task_count(),
    {
        let ghost q0 = self.queue@;
        let ghost f0 = self.in_queue@;
        while self.in_queue.len() <= id
            invariant
                self.in_queue@.len() >= f0.len(),
                forall|j: int| 0 <= j < f0.len() ==> #[trigger] self.in_queue@[j] == f0[j],
                forall|j: int| f0.len() <= j < self.in_queue@.len() ==> !(#[trigger] self.in_queue@[j]),
                self.queue@ == q0,
                self.tasks@.len() == self.next_task_id,
                self.next_task_id == old(self).next_task_id,
                self.tasks == old(self).tasks,
                self.task_count == old(self).task_count,
                no_duplicates(q0),
                forall|i: int| 0 <= i < q0.len() ==> (#[trigger] q0[i]) < f0.len() && f0[q0[i] as int],
                forall|j: usize| j < f0.len() && #[trigger] f0[j as int] ==> q0.contains(j),
            decreases id + 1 - self.in_queue@.len(),
        {
            self.in_queue.push(false);
        }
        if self.in_queue[id] {
            assert(self.queue@.contains(id));
        } else {
            assert(!self.queue@.contains(id)) by {
                if self.queue@.contains(id) {
                    let i = choose|i: int| 0 <= i < self.queue@.len() && self.queue@[i] == id;
                    assert(self.in_queue@[self.queue@[i] as int]);
                }
            }
            self.in_queue.set(id, true);
            self.queue.push_back(id);
            assert forall|j: usize| j < self.in_queue@.len() && #[trigger] self.in_queue@[j as int] implies self.queue@.contains(j) by {
                if j != id {
                    if j < f0.len() {
                        assert(f0[j as int]);
                        assert(q0.contains(j));
                        let i = choose|i: int| 0 <= i < q0.len() && q0[i] == j;
                        assert(self.queue@[i] == j);
                    }
                } else {
                    assert(self.queue@[self.queue@.len() - 1] == id);
                }
            }
        }
    }

    /// Adds `future` under the next task id, counts it as unfinished and
    /// wakes it so that it is polled a first time; returns its id.
    pub fn spawn(&mut self, future: F) -> (r: usize)
        requires
            old(self).wf(),
            old(self).spec_next_task_id() < usize::MAX - 1,
            old(self).spec_task_count() < usize::MAX,
        ensures
            final(self).wf(),
            r == old(self).spec_next_task_id(),
            final(self).spec_next_task_id() == r + 1,
            final(self).slots() == old(self).slots().push(Some(future)),
            final(self).spec_task_count() == old(self).spec_task_count() + 1,
            final(self).woken() == woken_after(old(self).woken(), r),
    {
        let task_id = self.next_task_id;
        self.next_task_id = self.next_task_id + 1;
        self.tasks.push(Some(future));
        self.task_count = self.task_count + 1;
        self.wake(task_id);
        task_id
    }

    /// Takes the oldest woken id off the wake queue; `None` when no task is
    /// woken.
    pub fn pop_woken_task(&mut self) -> (r: Option<usize>)
        requires
            old(self).wf(),
        ensures
            final(self).wf(),
            final(self).slots() == old(self).slots(),
            final(self).spec_next_task_id() == old(self).spec_next_task_id(),
            final(self).spec_task_count() == old(self).spec_task_count(),
            old(self).woken().len() == 0 ==> r is None && final(self).woken() == old(self).woken(),
            old(self).woken().len() > 0 ==> r == Some(old(self).woken()[0]) && final(self).woken()
                == old(self).woken().drop_first(),
    {
        let ghost q0 = self.queue@;
        match self.queue.pop_front() {
            Some(id) => {
                assert(q0[0] == id);
                self.in_queue.set(id, false);
                assert forall|i: int| 0 <= i < self.queue@.len() implies (#[trigger] self.queue@[i]) < self.in_queue@.len()
                    && self.in_queue@[self.queue@[i] as int] by {
                    assert(self.queue@[i] == q0[i + 1]);
                    assert(q0[i + 1] != q0[0]);
                }
                assert forall|j: usize| j < self.in_queue@.len() && #[trigger] self.in_queue@[j as int] implies self.queue@.contains(j) by {
                    assert(j != id);
                    assert(old(self).in_queue@[j as int]);
                    assert(q0.contains(j));
                    let k = choose|k: int| 0 <= k < q0.len() && q0[k] == j;
                    assert(k != 0);
                    assert(self.queue@[k - 1] == j);
                }
                Some(id)
            },
            None => None,
        }
    }

    /// Takes the future of task `id` out of its slot to poll it; `None` when
    /// the slot is empty or was never given out.
    pub fn take_task(&mut self, id: usize) -> (r: Option<F>)
        requires
            old(self).wf(),
        ensures
            final(self).wf(),
            final(self).woken() == old(self).woken(),
            final(self).spec_next_task_id() == old(self).spec_next_task_id(),
            final(self).spec_task_count() == old(self).spec_task_count(),
            id < old(self).slots().len() ==> r == old(self).slots()[id as int] && final(self).slots()
                == old(self).slots().update(id as int, None),
            id >= old(self).slots().len() ==> r is None && final(self).slots() == old(self).slots(),
    {
        if id >= self.tasks.len() {
            return None;
        }
        let mut taken: Option<F> = None;
        std::mem::swap(&mut taken, &mut self.tasks[id]);
        taken
    }

    /// Reports the outcome of polling task `id`: `None` when the future
    /// finished, which counts it as done; the future itself when it is still
    /// pending, which puts it back in its slot.
    pub fn finish_poll(&mut self, id: usize, still_pending: Option<F>)
        requires
            old(self).wf(),
            id < old(self).slots().len(),
            still_pending is None ==> old(self).spec_task_count() > 0,
        ensures
            final(self).wf(),
            final(self).woken() == old(self).woken(),
            final(self).spec_next_task_id() == old(self).spec_next_task_id(),
            still_pending is None ==> final(self).spec_task_count() == old(self).spec_task_count() - 1
                && final(self).slots() == old(self).slots(),
            still_pending is Some ==> final(self).spec_task_count() == old(self).spec_task_count()
                && final(self).slots() == old(self).slots().update(id as int, still_pending),
    {
        match still_pending {
            None => {
                self.task_count = self.task_count - 1;
            },
            Some(f) => {
                self.tasks.set(id, Some(f));
            },
        }
    }

    /// The number of futures spawned and not finished.
    pub fn pending_count(&self) -> (r: usize)
        ensures
            r == self.spec_task_count(),
    {
        self.task_count
    }

    /// The id the next spawned future gets.
    pub fn next_task_id(&self) -> (r: usize)
        ensures
            r == self.spec_next_task_id(),
    {
        self.next_task_id
    }

    /// Whether every spawned future has finished.
    pub fn is_empty(&self) -> (r: bool)
        ensures
            r <==> self.spec_task_count() == 0,
    {
        self.task_count == 0
    }

    /// The run loop's decision after a round that polled a future or found
    /// none woken.
    pub fn run_step(&self, polled: bool) -> (r: RunStep)
        ensures
            r == if polled {
                RunStep::PollAgain
            } else if self.spec_task_count() == 0 {
                RunStep::Finish
            } else {
                RunStep::BlockHost
            },
    {
        if polled {
            RunStep::PollAgain
        } else if self.is_empty() {
            RunStep::Finish
        } else {
            RunStep::BlockHost
        }
    }
}

/// Wakes keep every task queued once at most: a wake queues its task, and a
/// second wake of a queued task changes nothing.
pub proof fn law_wake_queues_once(q: Seq<usize>, id: usize)
    requires
        no_duplicates(q),
    ensures
        no_duplicates(woken_after(q, id)),
        woken_after(q, id).contains(id),
        woken_after(woken_after(q, id), id) == woken_after(q, id),
{
    if !q.contains(id) {
        assert(q.push(id)[q.len() as int] == id);
        assert forall|i: int, j: int| 0 <= i < j < q.push(id).len() implies q.push(id)[i] != q.push(id)[j] by {
            if j == q.len() {
                assert(q[i] != id);
            }
        }
    }
}

} // verus!
