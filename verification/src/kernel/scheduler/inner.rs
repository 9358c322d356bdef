use vstd::prelude::*;
use crate::config::MAX_TASKS;
use crate::kernel::scheduler::ready_queue::{
    ReadyQueue, remove_first, lemma_push_no_duplicates, lemma_remove_first_no_duplicates,
};
use crate::kernel::task::{Priority, Task, TaskState, Tcb};

verus! {

/// Number of priorities, one ready queue each.
pub const PRIORITY_COUNT: usize = 5;

/// Whether bit `p` of `b` is set.
pub open spec fn bit_set(b: u8, p: u8) -> bool {
    (b >> p) & 1u8 == 1u8
}

proof fn lemma_bit_or(b: u8, p: u8, q: u8)
    requires
        p < 8,
        q < 8,
    ensures
        bit_set(b | (1u8 << p), q) == (q == p || bit_set(b, q)),
{
    assert(((b | (1u8 << p)) >> q) & 1u8 == 1u8 <==> (q == p || (b >> q) & 1u8 == 1u8))
        by (bit_vector)
        requires
            p < 8,
            q < 8,
    ;
}

proof fn lemma_bit_clear(b: u8, p: u8, q: u8)
    requires
        p < 8,
        q < 8,
    ensures
        bit_set(b & !(1u8 << p), q) == (q != p && bit_set(b, q)),
{
    assert(((b & !(1u8 << p)) >> q) & 1u8 == 1u8 <==> (q != p && (b >> q) & 1u8 == 1u8))
        by (bit_vector)
        requires
            p < 8,
            q < 8,
    ;
}

proof fn lemma_bit_test(b: u8, p: u8)
    requires
        p < 8,
    ensures
        ((b & (1u8 << p)) == 0u8) == !bit_set(b, p),
{
    assert(((b & (1u8 << p)) == 0u8) == !((b >> p) & 1u8 == 1u8)) by (bit_vector)
        requires
            p < 8,
    ;
}

/// Every id left by `remove_first` was in the queue.
pub proof fn lemma_remove_first_in(q: Seq<usize>, x: usize, i: int)
    requires
        0 <= i < remove_first(q, x).len(),
    ensures
        exists|j: int| 0 <= j < q.len() && q[j] == #[trigger] remove_first(q, x)[i],
        remove_first(q, x).len() <= q.len(),
    decreases q.len(),
{
    if q.len() > 0 {
        let t = q.drop_first();
        if q[0] == x {
            assert(q[i + 1] == remove_first(q, x)[i]);
        } else if i == 0 {
            assert(q[0] == remove_first(q, x)[0]);
        } else {
            lemma_remove_first_in(t, x, i - 1);
            let j = choose|j: int| 0 <= j < t.len() && t[j] == #[trigger] remove_first(t, x)[i - 1];
            assert(q[j + 1] == remove_first(q, x)[i]);
        }
        if remove_first(t, x).len() > 0 {
            lemma_remove_first_in(t, x, 0);
        }
    }
}

/// Whether task `id` exists in `tasks` and is ready.
pub open spec fn is_ready(tasks: Seq<Tcb>, id: usize) -> bool {
    id < tasks.len() && tasks[id as int].state == TaskState::Ready
}

/// The position of the first ready task in `q`, or -1 when none is ready.
pub open spec fn first_ready(q: Seq<usize>, tasks: Seq<Tcb>) -> int
    decreases q.len(),
{
    if q.len() == 0 {
        -1
    } else if is_ready(tasks, q[0]) {
        0
    } else {
        let r = first_ready(q.drop_first(), tasks);
        if r < 0 {
            -1
        } else {
            r + 1
        }
    }
}

/// What `first_ready` means.
pub proof fn lemma_first_ready(q: Seq<usize>, tasks: Seq<Tcb>)
    ensures
        first_ready(q, tasks) >= 0 ==> first_ready(q, tasks) < q.len() && is_ready(
            tasks,
            q[first_ready(q, tasks)],
        ) && forall|j: int| 0 <= j < first_ready(q, tasks) ==> !is_ready(tasks, #[trigger] q[j]),
        first_ready(q, tasks) < 0 ==> first_ready(q, tasks) == -1 && forall|j: int|
            0 <= j < q.len() ==> !is_ready(tasks, #[trigger] q[j]),
    decreases q.len(),
{
    if q.len() > 0 {
        lemma_first_ready(q.drop_first(), tasks);
        if !is_ready(tasks, q[0]) {
            assert forall|j: int| 1 <= j < q.len() implies q[j] == q.drop_first()[j - 1] by {}
        }
    }
}

/// The highest priority at or below `p` whose queue holds a ready task, or -1.
pub open spec fn top_ready_from(queues: Seq<Seq<usize>>, tasks: Seq<Tcb>, p: int) -> int
    decreases p + 1,
{
    if p < 0 {
        -1
    } else if first_ready(queues[p], tasks) >= 0 {
        p
    } else {
        top_ready_from(queues, tasks, p - 1)
    }
}

/// The highest priority whose queue holds a ready task, or -1.
pub open spec fn top_ready(queues: Seq<Seq<usize>>, tasks: Seq<Tcb>) -> int {
    top_ready_from(queues, tasks, PRIORITY_COUNT as int - 1)
}

/// What `top_ready_from` means.
pub proof fn lemma_top_ready_from(queues: Seq<Seq<usize>>, tasks: Seq<Tcb>, p: int)
    requires
        -1 <= p < queues.len(),
    ensures
        top_ready_from(queues, tasks, p) <= p,
        top_ready_from(queues, tasks, p) >= -1,
        top_ready_from(queues, tasks, p) >= 0 ==> first_ready(
            queues[top_ready_from(queues, tasks, p)],
            tasks,
        ) >= 0,
        forall|q: int|
            top_ready_from(queues, tasks, p) < q <= p ==> first_ready(#[trigger] queues[q], tasks)
                < 0,
    decreases p + 1,
{
    if p >= 0 && first_ready(queues[p], tasks) < 0 {
        lemma_top_ready_from(queues, tasks, p - 1);
    }
}

/// The priority whose number is `p`, `Normal` for any other number.
pub open spec fn priority_of(p: int) -> Priority {
    if p == 0 {
        Priority::Idle
    } else if p == 1 {
        Priority::Low
    } else if p == 2 {
        Priority::Normal
    } else if p == 3 {
        Priority::High
    } else if p == 4 {
        Priority::Critical
    } else {
        Priority::Normal
    }
}

/// The first ready task of the highest non-empty priority, with that priority.
pub open spec fn peek_spec(queues: Seq<Seq<usize>>, tasks: Seq<Tcb>) -> Option<(usize, Priority)> {
    let p = top_ready(queues, tasks);
    if p < 0 {
        None
    } else {
        Some((queues[p][first_ready(queues[p], tasks)], priority_of(p)))
    }
}

/// The queues after taking that task: the higher queues are drained of their
/// tasks that are not ready, and the queue it came from loses it and the
/// tasks before it.
pub open spec fn take_spec(queues: Seq<Seq<usize>>, tasks: Seq<Tcb>) -> Seq<Seq<usize>> {
    let p = top_ready(queues, tasks);
    Seq::new(
        queues.len(),
        |q: int|
            if q > p {
                Seq::<usize>::empty()
            } else if q == p {
                queues[p].skip(first_ready(queues[p], tasks) + 1)
            } else {
                queues[q]
            },
    )
}

/// Once the queues above `p` hold no ready task and queue `p` does (or `p`
/// is -1), `p` is the highest ready priority.
pub proof fn lemma_top_ready_is(queues: Seq<Seq<usize>>, tasks: Seq<Tcb>, from: int, p: int)
    requires
        -1 <= p <= from < queues.len(),
        forall|q: int| p < q <= from ==> first_ready(#[trigger] queues[q], tasks) < 0,
        p >= 0 ==> first_ready(queues[p], tasks) >= 0,
    ensures
        top_ready_from(queues, tasks, from) == p,
    decreases from + 1,
{
    if from > p {
        lemma_top_ready_is(queues, tasks, from - 1, p);
    }
}

/// The queue `q` holds no ready task at or after position `n` exactly when
/// `first_ready` is below `n`.
proof fn lemma_first_ready_at(q: Seq<usize>, tasks: Seq<Tcb>, n: int)
    requires
        0 <= n <= q.len(),
        forall|j: int| 0 <= j < n ==> !is_ready(tasks, #[trigger] q[j]),
    ensures
        n < q.len() && is_ready(tasks, q[n]) ==> first_ready(q, tasks) == n,
        n == q.len() ==> first_ready(q, tasks) < 0,
{
    lemma_first_ready(q, tasks);
}

/// The total number of queued ids over all priorities.
pub open spec fn total_len(queues: Seq<Seq<usize>>) -> nat {
    queues[0].len() + queues[1].len() + queues[2].len() + queues[3].len() + queues[4].len()
}

/// The queues after `task_id` is queued at `priority`, unless it was queued
/// there already or that queue is full.
pub open spec fn enqueue_spec(qs: Seq<Seq<usize>>, task_id: usize, priority: Priority) -> Seq<Seq<usize>> {
    let i = priority.spec_as_u8() as int;
    qs.update(
        i,
        if qs[i].contains(task_id) || qs[i].len() >= MAX_TASKS {
            qs[i]
        } else {
            qs[i].push(task_id)
        },
    )
}

/// The scheduler's own state: a ready queue per priority, a bitmap of the
/// priorities whose queue may be non-empty, and the current task.
pub struct SchedulerInner {
    /// The task that runs.
    pub current_task: Option<Task>,
    /// The task to switch to.
    pub next_task: Option<Task>,
    pub ready_bitmap: u8,
    pub ready_queues: Vec<ReadyQueue>,
}

impl SchedulerInner {
    /// The queued task ids of each priority, front first.
    pub closed spec fn queues(&self) -> Seq<Seq<usize>> {
        Seq::new(PRIORITY_COUNT as nat, |p: int| self.ready_queues@[p]@)
    }

    /// Every queue is well formed and holds task ids in range, each at most
    /// once; a priority with a non-empty queue has its bit set in the bitmap.
    pub closed spec fn wf(&self) -> bool {
        &&& self.ready_queues@.len() == PRIORITY_COUNT
        &&& forall|p: int| 0 <= p < PRIORITY_COUNT ==> (#[trigger] self.ready_queues@[p]).wf()
        &&& forall|p: int| 0 <= p < PRIORITY_COUNT ==> (#[trigger] self.ready_queues@[p]@).no_duplicates()
        &&& forall|p: int, i: int|
            0 <= p < PRIORITY_COUNT && 0 <= i < self.ready_queues@[p]@.len() ==> (
            #[trigger] self.ready_queues@[p]@[i]) < MAX_TASKS
        &&& forall|p: int|
            0 <= p < PRIORITY_COUNT && (#[trigger] self.ready_queues@[p]@.len()) > 0 ==> bit_set(
                self.ready_bitmap,
                p as u8,
            )
    }

    /// Every queued task id is in range.
    pub open spec fn ids_in_range(&self) -> bool {
        forall|p: int, i: int|
            0 <= p < PRIORITY_COUNT && 0 <= i < self.queues()[p].len() ==> (
            #[trigger] self.queues()[p][i]) < MAX_TASKS
    }

    pub proof fn lemma_wf(&self)
        requires
            self.wf(),
        ensures
            self.queues().len() == PRIORITY_COUNT,
            self.ids_in_range(),
            forall|p: int| 0 <= p < PRIORITY_COUNT ==> #[trigger] self.queues()[p].len() <= MAX_TASKS,
            forall|p: int| 0 <= p < PRIORITY_COUNT ==> (#[trigger] self.queues()[p]).no_duplicates(),
    {
        assert forall|p: int| 0 <= p < PRIORITY_COUNT implies (#[trigger] self.queues()[p]).no_duplicates() by {
            assert(self.ready_queues@[p]@.no_duplicates());
        }
        assert forall|p: int| 0 <= p < PRIORITY_COUNT implies #[trigger] self.queues()[p].len()
            <= MAX_TASKS by {
            assert(self.ready_queues@[p].wf());
            self.ready_queues@[p].lemma_len();
        }
    }

    /// A scheduler with no current task and empty queues.
    pub fn new() -> (r: SchedulerInner)
        ensures
            r.wf(),
            r.current_task is None,
            r.next_task is None,
            forall|p: int| 0 <= p < PRIORITY_COUNT ==> (#[trigger] r.queues()[p]).len() == 0,
    {
        let mut qs: Vec<ReadyQueue> = Vec::new();
        let mut i: usize = 0;
        while i < PRIORITY_COUNT
            invariant
                i <= PRIORITY_COUNT,
                qs@.len() == i,
                forall|p: int| 0 <= p < i ==> (#[trigger] qs@[p]).wf() && qs@[p]@.len() == 0,
            decreases PRIORITY_COUNT - i,
        {
            qs.push(ReadyQueue::new());
            i = i + 1;
        }
        let r = SchedulerInner {
            current_task: None,
            next_task: None,
            ready_bitmap: 0,
            ready_queues: qs,
        };
        assert(forall|p: int| 0 <= p < PRIORITY_COUNT ==> (#[trigger] r.queues()[p]).len() == 0);
        r
    }

    /// Records `t` as the current task.
    pub fn set_current_task(&mut self, t: Option<Task>)
        requires
            old(self).wf(),
        ensures
            final(self).wf(),
            final(self).current_task == t,
            final(self).next_task == old(self).next_task,
            final(self).queues() == old(self).queues(),
    {
        self.current_task = t;
    }

    /// Queues `task_id` at `priority` unless it is queued there already.
    pub fn enqueue_ready(&mut self, task_id: usize, priority: Priority)
        requires
            old(self).wf(),
            task_id < MAX_TASKS,
        ensures
            final(self).wf(),
            final(self).current_task == old(self).current_task,
            final(self).next_task == old(self).next_task,
            final(self).queues() == enqueue_spec(old(self).queues(), task_id, priority),
    {
        let p = priority.as_u8() as usize;
        if !self.ready_queues[p].contains(task_id) {
            let ghost b = self.ready_bitmap;
            self.ready_queues[p].push(task_id);
            self.ready_bitmap = self.ready_bitmap | (1u8 << (p as u8));
            proof {
                assert forall|q: int|
                    0 <= q < PRIORITY_COUNT && (#[trigger] self.ready_queues@[q]@.len()) > 0 implies bit_set(
                    self.ready_bitmap,
                    q as u8,
                ) by {
                    lemma_bit_or(b, p as u8, q as u8);
                    if q != p {
                        assert(self.ready_queues@[q] == old(self).ready_queues@[q]);
                    }
                }
                assert forall|q: int, i: int|
                    0 <= q < PRIORITY_COUNT && 0 <= i < self.ready_queues@[q]@.len() implies (
                    #[trigger] self.ready_queues@[q]@[i]) < MAX_TASKS by {
                    if q != p {
                        assert(self.ready_queues@[q] == old(self).ready_queues@[q]);
                    } else if i < old(self).ready_queues@[q]@.len() {
                        assert(self.ready_queues@[q]@[i] == old(self).ready_queues@[q]@[i]);
                    }
                }
                assert forall|q: int| 0 <= q < PRIORITY_COUNT implies (
                #[trigger] self.ready_queues@[q]).wf() by {
                    if q != p {
                        assert(self.ready_queues@[q] == old(self).ready_queues@[q]);
                    }
                }
                assert forall|q: int| 0 <= q < PRIORITY_COUNT implies (
                #[trigger] self.ready_queues@[q]@).no_duplicates() by {
                    if q != p {
                        assert(self.ready_queues@[q] == old(self).ready_queues@[q]);
                    } else {
                        assert(old(self).ready_queues@[q]@.no_duplicates());
                        if self.ready_queues@[q]@ != old(self).ready_queues@[q]@ {
                            lemma_push_no_duplicates(old(self).ready_queues@[q]@, task_id);
                        }
                    }
                }
            }
        }
        assert(self.queues() =~= old(self).queues().update(
            priority.spec_as_u8() as int,
            if old(self).queues()[priority.spec_as_u8() as int].contains(task_id)
                || old(self).queues()[priority.spec_as_u8() as int].len() >= MAX_TASKS {
                old(self).queues()[priority.spec_as_u8() as int]
            } else {
                old(self).queues()[priority.spec_as_u8() as int].push(task_id)
            },
        ));
    }

    /// Clears the bit of priority `p` when its queue is empty.
    fn clear_if_empty(&mut self, p: usize)
        requires
            p < PRIORITY_COUNT,
            old(self).ready_queues@.len() == PRIORITY_COUNT,
            forall|q: int| 0 <= q < PRIORITY_COUNT ==> (#[trigger] old(self).ready_queues@[q]).wf(),
            forall|q: int| 0 <= q < PRIORITY_COUNT ==> (#[trigger] old(self).ready_queues@[q]@).no_duplicates(),
            forall|q: int, i: int|
                0 <= q < PRIORITY_COUNT && 0 <= i < old(self).ready_queues@[q]@.len() ==> (
                #[trigger] old(self).ready_queues@[q]@[i]) < MAX_TASKS,
            forall|q: int|
                0 <= q < PRIORITY_COUNT && q != p && (#[trigger] old(self).ready_queues@[q]@.len()) > 0
                    ==> bit_set(old(self).ready_bitmap, q as u8),
            old(self).ready_queues@[p as int]@.len() > 0 ==> bit_set(
                old(self).ready_bitmap,
                p as u8,
            ),
        ensures
            final(self).wf(),
            final(self).ready_queues == old(self).ready_queues,
            final(self).current_task == old(self).current_task,
            final(self).next_task == old(self).next_task,
            final(self).ready_bitmap == if old(self).ready_queues@[p as int]@.len() == 0 {
                old(self).ready_bitmap & !(1u8 << (p as u8))
            } else {
                old(self).ready_bitmap
            },
    {
        if self.ready_queues[p].is_empty() {
            let ghost b = self.ready_bitmap;
            self.ready_bitmap = self.ready_bitmap & !(1u8 << (p as u8));
            proof {
                assert forall|q: int|
                    0 <= q < PRIORITY_COUNT && (#[trigger] self.ready_queues@[q]@.len()) > 0 implies bit_set(
                    self.ready_bitmap,
                    q as u8,
                ) by {
                    lemma_bit_clear(b, p as u8, q as u8);
                }
            }
        }
    }

    /// Removes the first occurrence of `task_id` from the queue of `priority`.
    pub fn dequeue_task(&mut self, task_id: usize, priority: Priority)
        requires
            old(self).wf(),
        ensures
            final(self).wf(),
            final(self).current_task == old(self).current_task,
            final(self).next_task == old(self).next_task,
            final(self).queues() == old(self).queues().update(
                priority.spec_as_u8() as int,
                remove_first(old(self).queues()[priority.spec_as_u8() as int], task_id),
            ),
    {
        let p = priority.as_u8() as usize;
        let ghost before = self.ready_queues@[p as int]@;
        self.ready_queues[p].remove(task_id);
        proof {
            let after = self.ready_queues@[p as int]@;
            assert forall|i: int| 0 <= i < after.len() implies after[i] < MAX_TASKS by {
                lemma_remove_first_in(before, task_id, i);
            }
            assert(old(self).ready_queues@[p as int]@.no_duplicates());
            lemma_remove_first_no_duplicates(before, task_id);
        }
        self.clear_if_empty(p);
        assert(self.queues() =~= old(self).queues().update(
            priority.spec_as_u8() as int,
            remove_first(old(self).queues()[priority.spec_as_u8() as int], task_id),
        ));
    }

    /// Removes `task_id` from the first queue, by priority number, that holds it.
    pub fn remove_task_from_all_queues(&mut self, task_id: usize)
        requires
            old(self).wf(),
        ensures
            final(self).wf(),
            final(self).current_task == old(self).current_task,
            final(self).next_task == old(self).next_task,
            (forall|p: int| 0 <= p < PRIORITY_COUNT ==> !(#[trigger] old(self).queues()[p]).contains(task_id))
                ==> final(self).queues() == old(self).queues(),
            forall|p: int|
                0 <= p < PRIORITY_COUNT && old(self).queues()[p].contains(task_id) && (forall|q: int|
                    0 <= q < p ==> !(#[trigger] old(self).queues()[q]).contains(task_id))
                    ==> final(self).queues() == old(self).queues().update(
                    p,
                    remove_first(old(self).queues()[p], task_id),
                ),
    {
        let mut p: usize = 0;
        while p < PRIORITY_COUNT
            invariant_except_break
                p <= PRIORITY_COUNT,
                self.wf(),
                self.current_task == old(self).current_task,
                self.next_task == old(self).next_task,
                self.queues() == old(self).queues(),
                forall|q: int| 0 <= q < p ==> !(#[trigger] old(self).queues()[q]).contains(task_id),
            ensures
                self.wf(),
                self.current_task == old(self).current_task,
                self.next_task == old(self).next_task,
                (forall|q: int| 0 <= q < PRIORITY_COUNT ==> !(#[trigger] old(self).queues()[q]).contains(task_id))
                    ==> self.queues() == old(self).queues(),
                forall|q: int|
                    0 <= q < PRIORITY_COUNT && old(self).queues()[q].contains(task_id) && (forall|r: int|
                        0 <= r < q ==> !(#[trigger] old(self).queues()[r]).contains(task_id))
                        ==> self.queues() == old(self).queues().update(
                        q,
                        remove_first(old(self).queues()[q], task_id),
                    ),
            decreases PRIORITY_COUNT - p,
        {
            let ghost before = self.ready_queues@[p as int]@;
            if self.ready_queues[p].remove(task_id) {
                proof {
                    let after = self.ready_queues@[p as int]@;
                    assert forall|i: int| 0 <= i < after.len() implies after[i] < MAX_TASKS by {
                        lemma_remove_first_in(before, task_id, i);
                    }
                    lemma_remove_first_no_duplicates(before, task_id);
                }
                self.clear_if_empty(p);
                assert(self.queues() =~= old(self).queues().update(
                    p as int,
                    remove_first(old(self).queues()[p as int], task_id),
                ));
                break;
            }
            assert(self.queues() =~= old(self).queues());
            p = p + 1;
        }
    }

    /// Takes the first ready task of the highest priority that has one; the
    /// tasks met before it that are not ready leave their queues.
    pub fn get_highest_priority_ready_task(&mut self, tasks: &Vec<Tcb>) -> (r: Option<usize>)
        requires
            old(self).wf(),
            tasks@.len() == MAX_TASKS,
        ensures
            final(self).wf(),
            final(self).current_task == old(self).current_task,
            final(self).next_task == old(self).next_task,
            r == (match peek_spec(old(self).queues(), tasks@) {
                Some(x) => Some(x.0),
                None => None::<usize>,
            }),
            final(self).queues() == take_spec(old(self).queues(), tasks@),
    {
        let ghost orig = self.queues();
        let mut p: usize = PRIORITY_COUNT;
        while p > 0
            invariant
                p <= PRIORITY_COUNT,
                self.wf(),
                tasks@.len() == MAX_TASKS,
                orig == old(self).queues(),
                self.current_task == old(self).current_task,
                self.next_task == old(self).next_task,
                forall|q: int| p <= q < PRIORITY_COUNT ==> first_ready(#[trigger] orig[q], tasks@) < 0,
                forall|q: int| p <= q < PRIORITY_COUNT ==> (#[trigger] self.queues()[q]).len() == 0,
                forall|q: int| 0 <= q < p ==> #[trigger] self.queues()[q] == orig[q],
            decreases p,
        {
            p = p - 1;
            proof {
                lemma_bit_test(self.ready_bitmap, p as u8);
            }
            if (self.ready_bitmap & (1u8 << (p as u8))) == 0 {
                assert(self.ready_queues@[p as int]@.len() == 0);
                assert(self.queues()[p as int].len() == 0);
                assert(orig[p as int].len() == 0);
                proof {
                    lemma_first_ready_at(orig[p as int], tasks@, 0);
                }
                continue;
            }
            let ghost n: int = 0;
            assert(self.queues()[p as int] =~= orig[p as int].skip(0));
            while !self.ready_queues[p].is_empty()
                invariant
                    p < PRIORITY_COUNT,
                    self.wf(),
                    tasks@.len() == MAX_TASKS,
                    orig == old(self).queues(),
                    self.current_task == old(self).current_task,
                    self.next_task == old(self).next_task,
                    forall|q: int| p < q < PRIORITY_COUNT ==> first_ready(#[trigger] orig[q], tasks@) < 0,
                    forall|q: int| p < q < PRIORITY_COUNT ==> (#[trigger] self.queues()[q]).len() == 0,
                    forall|q: int| 0 <= q < p ==> #[trigger] self.queues()[q] == orig[q],
                    0 <= n <= orig[p as int].len(),
                    self.queues()[p as int] == orig[p as int].skip(n),
                    forall|j: int| 0 <= j < n ==> !is_ready(tasks@, #[trigger] orig[p as int][j]),
                decreases orig[p as int].len() - n,
            {
                proof {
                    self.lemma_wf();
                }
                let ghost before = self.queues();
                let popped = self.ready_queues[p].pop();
                assert(forall|q: int| 0 <= q < PRIORITY_COUNT && q != p ==> #[trigger] self.queues()[q] == before[q]);
                let task_id = match popped {
                    Some(x) => x,
                    None => {
                        assert(false);
                        0
                    },
                };
                assert(task_id == orig[p as int][n]);
                assert(task_id < MAX_TASKS);
                assert(self.queues()[p as int] =~= orig[p as int].skip(n + 1));
                if tasks[task_id].state == TaskState::Ready {
                    let ghost mid = self.queues();
                    self.clear_if_empty(p);
                    assert(self.queues() == mid);
                    proof {
                        lemma_first_ready_at(orig[p as int], tasks@, n);
                        lemma_top_ready_is(orig, tasks@, PRIORITY_COUNT as int - 1, p as int);
                        let t = take_spec(orig, tasks@);
                        assert forall|q: int| 0 <= q < PRIORITY_COUNT implies #[trigger] self.queues()[q] == t[q] by {
                            if q > p {
                                assert(self.queues()[q] =~= Seq::<usize>::empty());
                            }
                        }
                        assert(self.queues() =~= t);
                    }
                    return Some(task_id);
                }
                proof {
                    n = n + 1;
                }
            }
            assert(n == orig[p as int].len());
            let ghost b = self.ready_bitmap;
            self.ready_bitmap = self.ready_bitmap & !(1u8 << (p as u8));
            proof {
                assert forall|q: int|
                    0 <= q < PRIORITY_COUNT && (#[trigger] self.ready_queues@[q]@.len()) > 0 implies bit_set(
                    self.ready_bitmap,
                    q as u8,
                ) by {
                    lemma_bit_clear(b, p as u8, q as u8);
                }
                lemma_first_ready_at(orig[p as int], tasks@, n);
            }
        }
        proof {
            lemma_top_ready_is(orig, tasks@, PRIORITY_COUNT as int - 1, -1);
            let t = take_spec(orig, tasks@);
            assert forall|q: int| 0 <= q < PRIORITY_COUNT implies #[trigger] self.queues()[q] == t[q] by {
                assert(self.queues()[q] =~= Seq::<usize>::empty());
            }
            assert(self.queues() =~= t);
        }
        None
    }

    /// The first ready task of the highest priority that has one, with that
    /// priority; the queues are left as they are.
    pub fn peek_highest_priority_ready_task(&self, tasks: &Vec<Tcb>) -> (r: Option<(usize, Priority)>)
        requires
            self.wf(),
            tasks@.len() == MAX_TASKS,
        ensures
            r == peek_spec(self.queues(), tasks@),
    {
        let ghost qs = self.queues();
        proof {
            self.lemma_wf();
        }
        let mut p: usize = PRIORITY_COUNT;
        while p > 0
            invariant
                p <= PRIORITY_COUNT,
                self.wf(),
                qs == self.queues(),
                tasks@.len() == MAX_TASKS,
                self.ids_in_range(),
                forall|q: int| p <= q < PRIORITY_COUNT ==> first_ready(#[trigger] qs[q], tasks@) < 0,
            decreases p,
        {
            p = p - 1;
            proof {
                lemma_bit_test(self.ready_bitmap, p as u8);
            }
            if (self.ready_bitmap & (1u8 << (p as u8))) == 0 {
                assert(self.ready_queues@[p as int]@.len() == 0);
                assert(qs[p as int].len() == 0);
                proof {
                    lemma_first_ready_at(qs[p as int], tasks@, 0);
                }
                continue;
            }
            let queue = &self.ready_queues[p];
            let len = queue.len();
            let mut i: usize = 0;
            while i < len
                invariant
                    p < PRIORITY_COUNT,
                    self.wf(),
                    qs == self.queues(),
                    tasks@.len() == MAX_TASKS,
                    self.ids_in_range(),
                    forall|q: int| p < q < PRIORITY_COUNT ==> first_ready(#[trigger] qs[q], tasks@) < 0,
                    queue == self.ready_queues@[p as int],
                    queue.wf(),
                    len == qs[p as int].len(),
                    i <= len,
                    forall|j: int| 0 <= j < i ==> !is_ready(tasks@, #[trigger] qs[p as int][j]),
                decreases len - i,
            {
                let task_id = queue.get(i);
                assert(task_id == qs[p as int][i as int]);
                if tasks[task_id].state == TaskState::Ready {
                    proof {
                        lemma_first_ready_at(qs[p as int], tasks@, i as int);
                        lemma_top_ready_is(qs, tasks@, PRIORITY_COUNT as int - 1, p as int);
                    }
                    let prio = match Priority::from_u8(p as u8) {
                        Some(x) => x,
                        None => Priority::Normal,
                    };
                    return Some((task_id, prio));
                }
                i = i + 1;
            }
            proof {
                lemma_first_ready_at(qs[p as int], tasks@, len as int);
            }
        }
        proof {
            lemma_top_ready_is(qs, tasks@, PRIORITY_COUNT as int - 1, -1);
        }
        None
    }

    /// The number of tasks queued at `priority`.
    pub fn ready_count_at_priority(&self, priority: Priority) -> (r: usize)
        requires
            self.wf(),
        ensures
            r == self.queues()[priority.spec_as_u8() as int].len(),
    {
        let p = priority.as_u8() as usize;
        self.ready_queues[p].len()
    }

    /// The number of tasks queued over all priorities.
    pub fn total_ready_count(&self) -> (r: usize)
        requires
            self.wf(),
        ensures
            r == total_len(self.queues()),
    {
        proof {
            self.lemma_wf();
        }
        let mut total: usize = 0;
        let mut p: usize = 0;
        while p < PRIORITY_COUNT
            invariant
                p <= PRIORITY_COUNT,
                self.wf(),
                forall|q: int| 0 <= q < PRIORITY_COUNT ==> #[trigger] self.queues()[q].len() <= MAX_TASKS,
                total == (if p == 0 { 0 } else if p == 1 { self.queues()[0].len() } else if p == 2 {
                    self.queues()[0].len() + self.queues()[1].len()
                } else if p == 3 {
                    self.queues()[0].len() + self.queues()[1].len() + self.queues()[2].len()
                } else if p == 4 {
                    self.queues()[0].len() + self.queues()[1].len() + self.queues()[2].len()
                        + self.queues()[3].len()
                } else {
                    total_len(self.queues())
                }),
            decreases PRIORITY_COUNT - p,
        {
            assert(self.queues()[p as int].len() <= MAX_TASKS);
            total = total + self.ready_queues[p].len();
            p = p + 1;
        }
        total
    }
}

/// Priority scheduling serves the highest priority first and each priority
/// in queue order: the task it picks has the highest priority among the
/// queued ready tasks, and no ready task is queued before it at that
/// priority.
pub proof fn law_peek_highest_first(queues: Seq<Seq<usize>>, tasks: Seq<Tcb>)
    requires
        queues.len() == PRIORITY_COUNT,
    ensures
        peek_spec(queues, tasks) is None <==> forall|q: int, i: int|
            0 <= q < PRIORITY_COUNT && 0 <= i < queues[q].len() ==> !is_ready(tasks, #[trigger] queues[q][i]),
        peek_spec(queues, tasks) is Some ==> {
            let p = peek_spec(queues, tasks).unwrap().1.spec_as_u8() as int;
            let pos = first_ready(queues[p], tasks);
            &&& 0 <= pos < queues[p].len()
            &&& peek_spec(queues, tasks).unwrap().0 == queues[p][pos]
            &&& is_ready(tasks, queues[p][pos])
            &&& forall|q: int, i: int|
                p < q < PRIORITY_COUNT && 0 <= i < queues[q].len() ==> !is_ready(tasks, #[trigger] queues[q][i])
            &&& forall|i: int| 0 <= i < pos ==> !is_ready(tasks, #[trigger] queues[p][i])
        },
{
    lemma_top_ready_from(queues, tasks, PRIORITY_COUNT as int - 1);
    let p = top_ready(queues, tasks);
    assert forall|q: int| p < q < PRIORITY_COUNT implies forall|i: int| 0 <= i < (#[trigger] queues[q]).len() ==> !is_ready(tasks, queues[q][i]) by {
        lemma_first_ready(queues[q], tasks);
    }
    if p >= 0 {
        lemma_first_ready(queues[p], tasks);
    }
}

/// Queuing a task that is queued already changes nothing: a task is queued
/// once at most.
pub proof fn law_enqueue_idempotent(qs: Seq<Seq<usize>>, task_id: usize, priority: Priority)
    requires
        qs.len() == PRIORITY_COUNT,
    ensures
        enqueue_spec(enqueue_spec(qs, task_id, priority), task_id, priority) == enqueue_spec(qs, task_id, priority),
{
    let i = priority.spec_as_u8() as int;
    let q1 = enqueue_spec(qs, task_id, priority);
    if !(qs[i].contains(task_id) || qs[i].len() >= MAX_TASKS) {
        assert(q1[i][qs[i].len() as int] == task_id);
        assert(q1[i].contains(task_id));
    }
    assert(enqueue_spec(q1, task_id, priority) =~= q1);
}


/// A queue without repeats, of ids below `MAX_TASKS`, that lacks one such id
/// has room for it.
pub proof fn lemma_room_for_missing_id(q: Seq<usize>, id: usize)
    requires
        q.no_duplicates(),
        forall|i: int| 0 <= i < q.len() ==> #[trigger] q[i] < MAX_TASKS,
        id < MAX_TASKS,
        !q.contains(id),
    ensures
        q.len() < MAX_TASKS,
{
    broadcast use vstd::set_lib::range_set_properties;
    let all = Set::<usize>::range(0, MAX_TASKS);
    let others = all.remove(id);
    assert(all.finite() && all.len() == MAX_TASKS);
    assert(all.contains(id));
    assert(others.len() == MAX_TASKS - 1);
    assert forall|x: usize| q.to_set().contains(x) implies others.contains(x) by {
        let j = choose|j: int| 0 <= j < q.len() && q[j] == x;
        assert(q[j] < MAX_TASKS);
    }
    vstd::set_lib::lemma_len_subset(q.to_set(), others);
    q.unique_seq_to_set();
}

/// Queuing a well-formed scheduler's task `id` at `priority`: when the id
/// is not queued at that priority yet it goes to the back of that queue,
/// which grows by one; when it is, nothing changes. Either way every other
/// queue keeps its tasks, the id is then queued there exactly once, and
/// queuing it again changes nothing.
pub proof fn law_enqueue_ready(s: SchedulerInner, id: usize, priority: Priority)
    requires
        s.wf(),
        id < MAX_TASKS,
    ensures
        ({
            let qs = s.queues();
            let p = priority.spec_as_u8() as int;
            let r = enqueue_spec(qs, id, priority);
            &&& r[p] == if qs[p].contains(id) {
                qs[p]
            } else {
                qs[p].push(id)
            }
            &&& r[p].len() == qs[p].len() + if qs[p].contains(id) {
                0int
            } else {
                1int
            }
            &&& forall|q: int| 0 <= q < PRIORITY_COUNT && q != p ==> #[trigger] r[q] == qs[q]
            &&& r[p].contains(id)
            &&& r[p].no_duplicates()
            &&& enqueue_spec(r, id, priority) == r
        }),
{
    s.lemma_wf();
    let qs = s.queues();
    let p = priority.spec_as_u8() as int;
    assert(0 <= p < PRIORITY_COUNT);
    assert(qs[p].no_duplicates());
    if !qs[p].contains(id) {
        assert forall|i: int| 0 <= i < qs[p].len() implies #[trigger] qs[p][i] < MAX_TASKS by {}
        lemma_room_for_missing_id(qs[p], id);
        crate::kernel::scheduler::ready_queue::lemma_push_no_duplicates(qs[p], id);
        assert(qs[p].push(id)[qs[p].len() as int] == id);
    }
    law_enqueue_idempotent(qs, id, priority);
}

} // verus!
