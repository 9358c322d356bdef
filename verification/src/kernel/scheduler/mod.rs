pub mod inner;
pub mod ready_queue;

pub use inner::SchedulerInner;

use vstd::prelude::*;
use crate::config::MAX_TASKS;
use crate::kernel::Kernel;
use crate::kernel::scheduler::inner::{
    PRIORITY_COUNT, enqueue_spec, peek_spec, take_spec, total_len, is_ready, first_ready, top_ready,
    lemma_top_ready_from, lemma_first_ready, lemma_room_for_missing_id,
};
use crate::kernel::task::{Priority, Task, TaskState, Tcb};

verus! {

/// What the scheduler decides on: the task table, the ready queues, the
/// current task and the published current task id.
pub type SchedView = (Seq<Tcb>, Seq<Seq<usize>>, Option<Task>, usize);

/// The scheduler's part of the kernel state.
pub open spec fn sched_view(k: Kernel) -> SchedView {
    (k.tasks@, k.sched.queues(), k.sched.current_task, k.current_task_id)
}

/// `tasks` with task `i` in state `s`.
pub open spec fn set_state(tasks: Seq<Tcb>, i: int, s: TaskState) -> Seq<Tcb> {
    tasks.update(i, Tcb { state: s, ..tasks[i] })
}

/// Priority scheduling: when a ready task of higher priority than the
/// current one is queued (or the current task does not run), the first such
/// task of the highest priority runs and a running current task goes back to
/// its queue; otherwise a ready current task runs again.
pub open spec fn by_priority_spec(running: bool, v: SchedView) -> SchedView {
    let (tasks, qs, cur, cur_id) = v;
    if !running || cur is None {
        v
    } else {
        let c = cur.unwrap().0 as int;
        let cs = tasks[c].state;
        let cp = tasks[c].priority;
        let ctid = tasks[c].taskid;
        let pk = peek_spec(qs, tasks);
        if pk is Some && pk.unwrap().0 != ctid && (pk.unwrap().1.spec_as_u8() > cp.spec_as_u8() || cs
            != TaskState::Running) {
            let n = pk.unwrap().0;
            let q1 = take_spec(qs, tasks);
            let t1 = if cs == TaskState::Running {
                set_state(tasks, c, TaskState::Ready)
            } else {
                tasks
            };
            let q2 = if cs == TaskState::Running {
                enqueue_spec(q1, ctid, cp)
            } else {
                q1
            };
            (set_state(t1, n as int, TaskState::Running), q2, Some(Task(n)), n)
        } else if cs == TaskState::Ready {
            (set_state(tasks, c, TaskState::Running), qs, cur, cur_id)
        } else {
            v
        }
    }
}

/// The smallest id in `lo..hi` of a ready task, or -1.
pub open spec fn first_ready_id(tasks: Seq<Tcb>, lo: int, hi: int) -> int
    decreases hi - lo,
{
    if lo >= hi {
        -1
    } else if tasks[lo].state == TaskState::Ready {
        lo
    } else {
        first_ready_id(tasks, lo + 1, hi)
    }
}

/// The next ready task after `cur_id` in id order, wrapping around, or -1.
pub open spec fn rr_next(tasks: Seq<Tcb>, cur_id: int) -> int {
    let a = first_ready_id(tasks, cur_id + 1, MAX_TASKS as int);
    if a >= 0 {
        a
    } else {
        first_ready_id(tasks, 0, cur_id)
    }
}

/// Round robin: the next ready task after the current id runs and a running
/// current task becomes ready; with no other ready task, a ready current
/// task runs again.
pub open spec fn round_robin_spec(v: SchedView) -> SchedView {
    let (tasks, qs, cur, cur_id) = v;
    if cur is None {
        v
    } else {
        let c = cur.unwrap().0 as int;
        let n = rr_next(tasks, cur_id as int);
        if n >= 0 {
            let t1 = if tasks[c].state == TaskState::Running {
                set_state(tasks, c, TaskState::Ready)
            } else {
                tasks
            };
            (set_state(t1, n, TaskState::Running), qs, Some(Task(n as usize)), n as usize)
        } else if tasks[c].state == TaskState::Ready {
            (set_state(tasks, c, TaskState::Running), qs, cur, cur_id)
        } else {
            v
        }
    }
}

/// A task switch: nothing while the scheduler is stopped, priority
/// scheduling when it is on, round robin otherwise.
pub open spec fn switch_spec(k: Kernel) -> SchedView {
    switch_view(k.sched_running, k.use_priority, sched_view(k))
}

/// A task switch on the scheduler's part of the state `v`, with the
/// scheduler running or not and priority scheduling on or off.
pub open spec fn switch_view(running: bool, use_priority: bool, v: SchedView) -> SchedView {
    if !running {
        v
    } else if use_priority {
        by_priority_spec(true, v)
    } else {
        round_robin_spec(v)
    }
}

/// At most one task runs, and a running task is the current task.
pub open spec fn single_runner(v: SchedView) -> bool {
    forall|i: int| 0 <= i < v.0.len() && (#[trigger] v.0[i]).state == TaskState::Running ==> v.2 == Some(
        Task(i as usize),
    )
}

/// The queues after every ready task among the first `n` slots, by
/// ascending id, has been queued at its priority.
pub open spec fn enqueue_all(qs: Seq<Seq<usize>>, tasks: Seq<Tcb>, n: int) -> Seq<Seq<usize>>
    decreases n,
{
    if n <= 0 {
        qs
    } else {
        let q = enqueue_all(qs, tasks, n - 1);
        if tasks[n - 1].state == TaskState::Ready {
            enqueue_spec(q, (n - 1) as usize, tasks[n - 1].priority)
        } else {
            q
        }
    }
}

/// Counts of queued ready tasks.
#[derive(Debug, Clone, Copy)]
pub struct ReadyTaskStats {
    /// All queued tasks.
    pub total: usize,
    /// Queued tasks per priority, from `Idle` to `Critical`.
    pub by_priority: [usize; 5],
}

/// The kernel scheduler.
pub struct Scheduler;

impl Scheduler {
    /// Empties the ready queues, forgets the current task and stops the
    /// scheduler with priority scheduling off.
    pub fn init(k: &mut Kernel)
        requires
            old(k).wf(),
        ensures
            final(k).wf(),
            final(k).tasks@ == old(k).tasks@,
            final(k).time == old(k).time,
            final(k).timers == old(k).timers,
            final(k).mq_slots == old(k).mq_slots,
            final(k).sched.current_task is None,
            final(k).sched.next_task is None,
            forall|p: int| 0 <= p < PRIORITY_COUNT ==> (#[trigger] final(k).sched.queues()[p]).len() == 0,
            !final(k).sched_running,
            !final(k).use_priority,
            final(k).current_task_id == 0,
    {
        k.sched = SchedulerInner::new();
        k.sched_running = false;
        k.use_priority = false;
        k.current_task_id = 0;
    }

    /// Switches priority scheduling on.
    pub fn enable_priority_scheduling(k: &mut Kernel)
        requires
            old(k).wf(),
        ensures
            *final(k) == (Kernel { use_priority: true, ..*old(k) }),
    {
        k.use_priority = true;
    }

    /// Switches priority scheduling off, back to round robin.
    pub fn disable_priority_scheduling(k: &mut Kernel)
        requires
            old(k).wf(),
        ensures
            *final(k) == (Kernel { use_priority: false, ..*old(k) }),
    {
        k.use_priority = false;
    }

    /// Whether priority scheduling is on.
    pub fn is_priority_scheduling_enabled(k: &Kernel) -> (r: bool)
        ensures
            r == k.use_priority,
    {
        k.use_priority
    }

    /// Whether the scheduler runs.
    pub fn is_running(k: &Kernel) -> (r: bool)
        ensures
            r == k.sched_running,
    {
        k.sched_running
    }

    /// Queues `task` at its priority unless it is queued there already.
    pub fn enqueue_ready_task(k: &mut Kernel, task: &Task)
        requires
            old(k).wf(),
            task.0 < MAX_TASKS,
        ensures
            final(k).wf(),
            final(k).tasks@ == old(k).tasks@,
            final(k).sched.current_task == old(k).sched.current_task,
            final(k).sched.queues() == enqueue_spec(
                old(k).sched.queues(),
                old(k).tasks@[task.0 as int].taskid,
                old(k).tasks@[task.0 as int].priority,
            ),
            final(k).same_but_sched(*old(k)),
    {
        let id = task.get_taskid(k);
        let prio = task.get_priority(k);
        k.sched.enqueue_ready(id, prio);
    }

    /// Takes `task` out of the queue of its priority.
    pub fn dequeue_task(k: &mut Kernel, task: &Task)
        requires
            old(k).wf(),
            task.0 < MAX_TASKS,
        ensures
            final(k).wf(),
            final(k).tasks@ == old(k).tasks@,
            final(k).sched.current_task == old(k).sched.current_task,
            final(k).sched.queues() == old(k).sched.queues().update(
                old(k).tasks@[task.0 as int].priority.spec_as_u8() as int,
                crate::kernel::scheduler::ready_queue::remove_first(
                    old(k).sched.queues()[old(k).tasks@[task.0 as int].priority.spec_as_u8() as int],
                    old(k).tasks@[task.0 as int].taskid,
                ),
            ),
            final(k).same_but_sched(*old(k)),
    {
        let id = task.get_taskid(k);
        let prio = task.get_priority(k);
        k.sched.dequeue_task(id, prio);
    }

    /// Priority scheduling, as `by_priority_spec` says.
    pub fn schedule_by_priority(k: &mut Kernel)
        requires
            old(k).wf(),
        ensures
            final(k).wf(),
            sched_view(*final(k)) == by_priority_spec(old(k).sched_running, sched_view(*old(k))),
            final(k).same_but_sched_and_tasks(*old(k)),
    {
        if !k.sched_running {
            return;
        }
        let current_task = match k.sched.current_task {
            Some(t) => t,
            None => {
                return;
            },
        };
        let ghost v0 = sched_view(*k);
        let c = current_task.0;
        let current_priority = k.tasks[c].priority;
        let current_state = k.tasks[c].state;
        let current_id = k.tasks[c].taskid;
        proof {
            k.sched.lemma_wf();
        }
        match k.sched.peek_highest_priority_ready_task(&k.tasks) {
            Some((next_task_id, next_priority)) => {
                if next_task_id != current_id && (next_priority.is_higher_than(current_priority)
                    || current_state != TaskState::Running) {
                    proof {
                        lemma_peek_in_range(v0.1, v0.0);
                    }
                    let taken = k.sched.get_highest_priority_ready_task(&k.tasks);
                    let next_id = match taken {
                        Some(x) => x,
                        None => next_task_id,
                    };
                    if current_state == TaskState::Running {
                        let mut current = current_task;
                        current.ready(k);
                        k.sched.enqueue_ready(current_id, current_priority);
                    }
                    let mut next_task = Task(next_id);
                    next_task.run(k);
                    k.sched.set_current_task(Some(next_task));
                    k.current_task_id = next_id;
                    return;
                }
            },
            None => {},
        }
        if current_state == TaskState::Ready {
            let mut current = current_task;
            current.run(k);
            k.sched.set_current_task(Some(current));
        }
    }

    /// Preemption check: with the scheduler running under priority
    /// scheduling, schedules by priority when a queued ready task has a
    /// higher priority than the current task.
    pub fn preempt_check(k: &mut Kernel)
        requires
            old(k).wf(),
        ensures
            final(k).wf(),
            final(k).same_but_sched_and_tasks(*old(k)),
            ({
                let v = sched_view(*old(k));
                let go = old(k).sched_running && old(k).use_priority && v.2 is Some && peek_spec(
                    v.1,
                    v.0,
                ) is Some && peek_spec(v.1, v.0).unwrap().1.spec_as_u8() > v.0[v.2.unwrap().0 as int].priority.spec_as_u8();
                sched_view(*final(k)) == if go {
                    by_priority_spec(true, v)
                } else {
                    v
                }
            }),
    {
        if !k.sched_running || !k.use_priority {
            return;
        }
        let current_task = match k.sched.current_task {
            Some(t) => t,
            None => {
                return;
            },
        };
        let current_priority = k.tasks[current_task.0].priority;
        match k.sched.peek_highest_priority_ready_task(&k.tasks) {
            Some((_, highest_priority)) => {
                if highest_priority.is_higher_than(current_priority) {
                    Self::schedule_by_priority(k);
                }
            },
            None => {},
        }
    }

    /// Switches tasks when the scheduler runs: by priority when priority
    /// scheduling is on, round robin otherwise.
    pub fn task_switch(k: &mut Kernel)
        requires
            old(k).wf(),
        ensures
            final(k).wf(),
            final(k).same_but_sched_and_tasks(*old(k)),
            sched_view(*final(k)) == switch_spec(*old(k)),
    {
        if !k.sched_running {
            return;
        }
        if k.use_priority {
            Self::schedule_by_priority(k);
            return;
        }
        Self::round_robin_schedule(k);
    }

    /// The smallest id in `lo..hi` of a ready task, or `None`.
    fn find_ready(k: &Kernel, lo: usize, hi: usize) -> (r: Option<usize>)
        requires
            k.wf(),
            hi <= MAX_TASKS,
        ensures
            r is Some <==> first_ready_id(k.tasks@, lo as int, hi as int) >= 0,
            r is Some ==> r.unwrap() == first_ready_id(k.tasks@, lo as int, hi as int),
    {
        let mut i = lo;
        while i < hi
            invariant
                k.wf(),
                lo <= i,
                hi <= MAX_TASKS,
                first_ready_id(k.tasks@, lo as int, hi as int) == first_ready_id(k.tasks@, i as int, hi as int),
            decreases hi - i,
        {
            if k.tasks[i].state == TaskState::Ready {
                return Some(i);
            }
            i = i + 1;
        }
        None
    }

    /// Round robin, as `round_robin_spec` says.
    fn round_robin_schedule(k: &mut Kernel)
        requires
            old(k).wf(),
        ensures
            final(k).wf(),
            final(k).same_but_sched_and_tasks(*old(k)),
            sched_view(*final(k)) == round_robin_spec(sched_view(*old(k))),
    {
        let current_task_id = k.current_task_id;
        let next_task_id = match Self::find_ready(k, current_task_id + 1, MAX_TASKS) {
            Some(n) => Some(n),
            None => Self::find_ready(k, 0, current_task_id),
        };
        proof {
            lemma_first_ready_id(k.tasks@, current_task_id + 1, MAX_TASKS as int);
            lemma_first_ready_id(k.tasks@, 0, current_task_id as int);
        }
        let current_task = match k.sched.current_task {
            Some(t) => t,
            None => {
                return;
            },
        };
        match next_task_id {
            Some(next_id) => {
                let mut next = Task(next_id);
                if k.tasks[current_task.0].state == TaskState::Running {
                    let mut current = current_task;
                    current.ready(k);
                }
                next.run(k);
                k.sched.set_current_task(Some(next));
                k.current_task_id = next_id;
            },
            None => {
                if k.tasks[current_task.0].state == TaskState::Ready {
                    let mut current = current_task;
                    current.run(k);
                    k.sched.set_current_task(Some(current));
                }
            },
        }
    }

    /// Starts the scheduler: queues every ready task at its priority, by
    /// ascending id, and runs task 0.
    pub fn start(k: &mut Kernel)
        requires
            old(k).wf(),
        ensures
            final(k).wf(),
            final(k).sched_running,
            final(k).use_priority == old(k).use_priority,
            final(k).time == old(k).time,
            final(k).timers == old(k).timers,
            final(k).mq_slots == old(k).mq_slots,
            final(k).tasks@ == set_state(old(k).tasks@, 0, TaskState::Running),
            final(k).sched.queues() == enqueue_all(old(k).sched.queues(), old(k).tasks@, MAX_TASKS as int),
            final(k).sched.current_task == Some(Task(0)),
            final(k).current_task_id == 0,
    {
        let mut i: usize = 0;
        while i < MAX_TASKS
            invariant
                i <= MAX_TASKS,
                k.wf(),
                k.tasks == old(k).tasks,
                k.sched_running == old(k).sched_running,
                k.use_priority == old(k).use_priority,
                k.time == old(k).time,
                k.timers == old(k).timers,
                k.mq_slots == old(k).mq_slots,
                k.current_task_id == old(k).current_task_id,
                k.sched.queues() == enqueue_all(old(k).sched.queues(), old(k).tasks@, i as int),
            decreases MAX_TASKS - i,
        {
            let t = k.tasks[i];
            if t.state == TaskState::Ready {
                k.sched.enqueue_ready(i, t.priority);
            }
            i = i + 1;
        }
        k.current_task_id = 0;
        k.sched.set_current_task(Some(Task(0)));
        let mut first = Task(0);
        first.run(k);
        k.sched_running = true;
    }

    /// Stops the scheduler.
    pub fn stop(k: &mut Kernel)
        requires
            old(k).wf(),
        ensures
            *final(k) == (Kernel { sched_running: false, ..*old(k) }),
    {
        k.sched_running = false;
    }

    /// The task whose id the scheduler last published as current.
    pub fn get_current_task(k: &Kernel) -> (r: Task)
        ensures
            r == Task(k.current_task_id),
    {
        Task(k.current_task_id)
    }

    /// The scheduler's current task; there must be one.
    pub fn get_current_task_locked(k: &Kernel) -> (r: Task)
        requires
            k.sched.current_task is Some,
        ensures
            r == k.sched.current_task.unwrap(),
    {
        match k.sched.current_task {
            Some(t) => t,
            None => Task(0),
        }
    }

    /// The number of queued tasks, in all and per priority.
    pub fn ready_task_stats(k: &Kernel) -> (r: ReadyTaskStats)
        requires
            k.wf(),
        ensures
            r.total == total_len(k.sched.queues()),
            forall|p: int| 0 <= p < PRIORITY_COUNT ==> #[trigger] r.by_priority@[p] == k.sched.queues()[p].len(),
    {
        let total = k.sched.total_ready_count();
        let a = k.sched.ready_count_at_priority(Priority::Idle);
        let b = k.sched.ready_count_at_priority(Priority::Low);
        let c = k.sched.ready_count_at_priority(Priority::Normal);
        let d = k.sched.ready_count_at_priority(Priority::High);
        let e = k.sched.ready_count_at_priority(Priority::Critical);
        let by_priority = [a, b, c, d, e];
        ReadyTaskStats { total, by_priority }
    }
}

/// What `first_ready_id` means.
pub proof fn lemma_first_ready_id(tasks: Seq<Tcb>, lo: int, hi: int)
    requires
        0 <= lo,
    ensures
        first_ready_id(tasks, lo, hi) >= 0 ==> lo <= first_ready_id(tasks, lo, hi) < hi
            && tasks[first_ready_id(tasks, lo, hi)].state == TaskState::Ready,
        first_ready_id(tasks, lo, hi) < 0 ==> first_ready_id(tasks, lo, hi) == -1,
    decreases hi - lo,
{
    if lo < hi {
        lemma_first_ready_id(tasks, lo + 1, hi);
    }
}

/// The task that `peek_spec` names is in range.
pub proof fn lemma_peek_in_range(qs: Seq<Seq<usize>>, tasks: Seq<Tcb>)
    requires
        peek_spec(qs, tasks) is Some,
        qs.len() == PRIORITY_COUNT,
        forall|p: int, i: int| 0 <= p < PRIORITY_COUNT && 0 <= i < qs[p].len() ==> (#[trigger] qs[p][i]) < MAX_TASKS,
    ensures
        peek_spec(qs, tasks).unwrap().0 < MAX_TASKS,
{
    let p = crate::kernel::scheduler::inner::top_ready(qs, tasks);
    crate::kernel::scheduler::inner::lemma_top_ready_from(qs, tasks, PRIORITY_COUNT as int - 1);
    crate::kernel::scheduler::inner::lemma_first_ready(qs[p], tasks);
    let i = crate::kernel::scheduler::inner::first_ready(qs[p], tasks);
    assert(qs[p][i] < MAX_TASKS);
}

/// A task switch keeps at most one task running, and that task is the
/// current one: the task that gives way stops running when another starts.
pub proof fn law_task_switch_single_runner(k: Kernel)
    requires
        k.wf(),
        single_runner(sched_view(k)),
    ensures
        single_runner(switch_spec(k)),
{
    let v = sched_view(k);
    if k.sched_running && v.2 is Some {
        let c = v.2.unwrap().0 as int;
        if k.use_priority {
            let pk = peek_spec(v.1, v.0);
            if pk is Some {
                k.sched.lemma_wf();
                lemma_peek_in_range(v.1, v.0);
            }
            let r = by_priority_spec(true, v);
            assert forall|i: int| 0 <= i < r.0.len() && (#[trigger] r.0[i]).state == TaskState::Running implies r.2
                == Some(Task(i as usize)) by {
                if i != c && (pk is None || i != pk.unwrap().0) {
                    assert(r.0[i] == v.0[i]);
                }
            }
        } else {
            let n = rr_next(v.0, v.3 as int);
            lemma_first_ready_id(v.0, v.3 + 1, MAX_TASKS as int);
            lemma_first_ready_id(v.0, 0, v.3 as int);
            let r = round_robin_spec(v);
            assert forall|i: int| 0 <= i < r.0.len() && (#[trigger] r.0[i]).state == TaskState::Running implies r.2
                == Some(Task(i as usize)) by {
                if i != c && i != n {
                    assert(r.0[i] == v.0[i]);
                }
            }
        }
    }
}

/// Starting the scheduler when no task runs leaves exactly one task
/// running, task 0, which is the current task.
pub proof fn law_start_single_runner(k0: Kernel, k1: Kernel)
    requires
        k0.wf(),
        forall|i: int| 0 <= i < k0.tasks@.len() ==> (#[trigger] k0.tasks@[i]).state != TaskState::Running,
        k1.tasks@ == set_state(k0.tasks@, 0, TaskState::Running),
        k1.sched.current_task == Some(Task(0)),
    ensures
        single_runner(sched_view(k1)),
        k1.tasks@[0].state == TaskState::Running,
{
    assert forall|i: int| 0 <= i < k1.tasks@.len() && (#[trigger] k1.tasks@[i]).state == TaskState::Running implies k1.sched.current_task
        == Some(Task(i as usize)) by {
        if i != 0 {
            assert(k1.tasks@[i] == k0.tasks@[i]);
        }
    }
}

/// Whether a task in state `s` takes part in scheduling: ready or running.
pub open spec fn runnable(s: TaskState) -> bool {
    s == TaskState::Ready || s == TaskState::Running
}

/// How many of the first `n` tasks are ready or running.
pub open spec fn count_runnable(tasks: Seq<Tcb>, n: int) -> nat
    decreases n,
{
    if n <= 0 {
        0
    } else {
        count_runnable(tasks, n - 1) + if runnable(tasks[n - 1].state) {
            1nat
        } else {
            0nat
        }
    }
}

/// How many of the first `n` tasks are running.
pub open spec fn count_running(tasks: Seq<Tcb>, n: int) -> nat
    decreases n,
{
    if n <= 0 {
        0
    } else {
        count_running(tasks, n - 1) + if tasks[n - 1].state == TaskState::Running {
            1nat
        } else {
            0nat
        }
    }
}

/// Task tables that agree on which tasks are ready or running have as many.
proof fn lemma_count_runnable_same(a: Seq<Tcb>, b: Seq<Tcb>, n: int)
    requires
        0 <= n <= a.len(),
        n <= b.len(),
        forall|i: int| 0 <= i < n ==> runnable(#[trigger] a[i].state) == runnable(b[i].state),
    ensures
        count_runnable(a, n) == count_runnable(b, n),
    decreases n,
{
    if n > 0 {
        lemma_count_runnable_same(a, b, n - 1);
        assert(runnable(a[n - 1].state) == runnable(b[n - 1].state));
    }
}

/// When task `c` runs and no other does, one task runs.
proof fn lemma_count_running_one(tasks: Seq<Tcb>, c: int, n: int)
    requires
        0 <= c < tasks.len(),
        0 <= n <= tasks.len(),
        tasks[c].state == TaskState::Running,
        forall|i: int| 0 <= i < tasks.len() && (#[trigger] tasks[i]).state == TaskState::Running ==> i == c,
    ensures
        count_running(tasks, n) == if n > c {
            1nat
        } else {
            0nat
        },
    decreases n,
{
    if n > 0 {
        lemma_count_running_one(tasks, c, n - 1);
        if tasks[n - 1].state == TaskState::Running {
            assert(n - 1 == c);
        }
    }
}

/// The published current task id and the scheduler's current task agree:
/// whenever the scheduler has a current task its id is the published one,
/// and a running scheduler always has one.
pub proof fn law_current_ids_agree(k: Kernel)
    requires
        k.wf(),
    ensures
        k.sched.current_task is Some ==> k.sched.current_task == Some(Task(k.current_task_id)),
        k.sched_running ==> k.sched.current_task == Some(Task(k.current_task_id)),
{
}

/// Round robin task switches. While the scheduler is stopped a switch
/// changes nothing. While it runs, with at most one task running and some
/// task ready or running, a switch leaves exactly one task running: the
/// scheduler's current task, whose id is the published current id. A task
/// that was ready or running is ready or running after the switch, and
/// every other task (blocked on an event, or without a task) keeps its
/// state; so exactly one task runs and as many tasks as before are ready or
/// running.
pub proof fn law_round_robin_switch(k: Kernel)
    requires
        k.wf(),
        !k.use_priority,
        single_runner(sched_view(k)),
    ensures
        !k.sched_running ==> switch_spec(k) == sched_view(k),
        k.sched_running && (exists|j: int| 0 <= j < MAX_TASKS && runnable(#[trigger] k.tasks@[j].state)) ==> {
            let r = switch_spec(k);
            &&& r.0.len() == MAX_TASKS
            &&& r.2 == Some(Task(r.3))
            &&& r.3 < MAX_TASKS
            &&& r.0[r.3 as int].state == TaskState::Running
            &&& single_runner(r)
            &&& forall|i: int| 0 <= i < MAX_TASKS ==> runnable(#[trigger] r.0[i].state) == runnable(k.tasks@[i].state)
            &&& forall|i: int| 0 <= i < MAX_TASKS && !runnable(k.tasks@[i].state) ==> #[trigger] r.0[i].state == k.tasks@[i].state
            &&& count_running(r.0, MAX_TASKS as int) == 1
            &&& count_runnable(r.0, MAX_TASKS as int) == count_runnable(k.tasks@, MAX_TASKS as int)
        },
{
    if k.sched_running && (exists|j: int| 0 <= j < MAX_TASKS && runnable(#[trigger] k.tasks@[j].state)) {
        law_task_switch_single_runner(k);
        let v = sched_view(k);
        let c = v.2.unwrap().0 as int;
        let cur = k.current_task_id as int;
        assert(c == cur);
        law_round_robin_next(v.0, cur);
        let n = rr_next(v.0, cur);
        let r = switch_spec(k);
        assert(r == round_robin_spec(v));
        if n >= 0 {
            assert forall|i: int| 0 <= i < MAX_TASKS implies runnable(#[trigger] r.0[i].state) == runnable(
                k.tasks@[i].state,
            ) && (!runnable(k.tasks@[i].state) ==> r.0[i].state == k.tasks@[i].state) by {
                if i != c && i != n {
                    assert(r.0[i] == v.0[i]);
                }
            }
        } else {
            let j = choose|j: int| 0 <= j < MAX_TASKS && runnable(#[trigger] k.tasks@[j].state);
            if j != c {
                if k.tasks@[j].state == TaskState::Running {
                    assert(v.0[j].state == TaskState::Running);
                }
            }
            assert(runnable(v.0[c].state));
            assert forall|i: int| 0 <= i < MAX_TASKS implies runnable(#[trigger] r.0[i].state) == runnable(
                k.tasks@[i].state,
            ) && (!runnable(k.tasks@[i].state) ==> r.0[i].state == k.tasks@[i].state) by {
                if i != c {
                    assert(r.0[i] == v.0[i]);
                }
            }
        }
        lemma_count_runnable_same(r.0, k.tasks@, MAX_TASKS as int);
        let rc = r.3 as int;
        assert forall|i: int| 0 <= i < r.0.len() && (#[trigger] r.0[i]).state == TaskState::Running implies i == rc by {
            assert(r.2 == Some(Task(i as usize)));
        }
        lemma_count_running_one(r.0, rc, MAX_TASKS as int);
    }
}

/// A call as far as the scheduler's running flag goes: `Scheduler::init`
/// (or `kernel_init`), `Scheduler::start`, `Scheduler::stop`, or any other
/// kernel call.
pub enum FlagCall {
    Init,
    Start,
    Stop,
    Other,
}

/// What call `c` does to the running flag from `k0` to `k1`, as the calls'
/// contracts state it: `init` and `stop` clear it, `start` sets it, and every
/// other call keeps it.
pub open spec fn flag_step(c: FlagCall, k0: Kernel, k1: Kernel) -> bool {
    match c {
        FlagCall::Init => !k1.sched_running,
        FlagCall::Start => k1.sched_running,
        FlagCall::Stop => !k1.sched_running,
        FlagCall::Other => k1.sched_running == k0.sched_running,
    }
}

/// Whether some `start` in `calls` has no `init` or `stop` after it.
pub open spec fn started_since_reset(calls: Seq<FlagCall>) -> bool {
    exists|i: int|
        0 <= i < calls.len() && #[trigger] calls[i] is Start && forall|j: int|
            i < j < calls.len() ==> !(#[trigger] calls[j] is Init) && !(calls[j] is Stop)
}

/// From a freshly initialised kernel, the scheduler runs after a sequence
/// of calls (`Scheduler::is_running` answers `true`) exactly when `start`
/// was called after the last `init` and no `stop` came after that start (start, stop, start again: running, not
/// running, running).
pub proof fn law_running_flag(ks: Seq<Kernel>, calls: Seq<FlagCall>)
    requires
        ks.len() == calls.len() + 1,
        !ks[0].sched_running,
        forall|i: int| 0 <= i < calls.len() ==> flag_step(#[trigger] calls[i], ks[i], ks[i + 1]),
    ensures
        ks.last().sched_running <==> started_since_reset(calls),
    decreases calls.len(),
{
    let n = calls.len() as int;
    if n > 0 {
        let ks0 = ks.drop_last();
        let cs0 = calls.drop_last();
        assert forall|i: int| 0 <= i < cs0.len() implies flag_step(#[trigger] cs0[i], ks0[i], ks0[i + 1]) by {
            assert(flag_step(calls[i], ks[i], ks[i + 1]));
        }
        law_running_flag(ks0, cs0);
        assert(flag_step(calls[n - 1], ks[n - 1], ks[n]));
        assert(ks0.last() == ks[n - 1]);
        match calls[n - 1] {
            FlagCall::Start => {
                assert(forall|j: int| n - 1 < j < n ==> !(#[trigger] calls[j] is Init) && !(calls[j] is Stop));
                assert(started_since_reset(calls));
            },
            FlagCall::Other => {
                if started_since_reset(cs0) {
                    let i = choose|i: int|
                        0 <= i < cs0.len() && #[trigger] cs0[i] is Start && forall|j: int|
                            i < j < cs0.len() ==> !(#[trigger] cs0[j] is Init) && !(cs0[j] is Stop);
                    assert(calls[i] is Start);
                    assert forall|j: int| i < j < n implies !(#[trigger] calls[j] is Init) && !(calls[j] is Stop) by {
                        if j < n - 1 {
                            assert(calls[j] == cs0[j]);
                        }
                    }
                }
                if started_since_reset(calls) {
                    let i = choose|i: int|
                        0 <= i < calls.len() && #[trigger] calls[i] is Start && forall|j: int|
                            i < j < calls.len() ==> !(#[trigger] calls[j] is Init) && !(calls[j] is Stop);
                    assert(i < n - 1);
                    assert(cs0[i] is Start);
                    assert forall|j: int| i < j < cs0.len() implies !(#[trigger] cs0[j] is Init) && !(cs0[j] is Stop) by {
                        assert(calls[j] == cs0[j]);
                    }
                }
            },
            _ => {
                if started_since_reset(calls) {
                    let i = choose|i: int|
                        0 <= i < calls.len() && #[trigger] calls[i] is Start && forall|j: int|
                            i < j < calls.len() ==> !(#[trigger] calls[j] is Init) && !(calls[j] is Stop);
                    assert(i != n - 1);
                    assert(!(calls[n - 1] is Init) && !(calls[n - 1] is Stop));
                }
            },
        }
    }
}

/// No task before the one `first_ready_id` finds is ready; none in the
/// range when it finds none.
proof fn lemma_first_ready_id_skips(tasks: Seq<Tcb>, lo: int, hi: int)
    requires
        0 <= lo,
    ensures
        forall|i: int|
            lo <= i < hi && (first_ready_id(tasks, lo, hi) < 0 || i < first_ready_id(tasks, lo, hi)) ==> (
            #[trigger] tasks[i]).state != TaskState::Ready,
    decreases hi - lo,
{
    if lo < hi {
        lemma_first_ready_id_skips(tasks, lo + 1, hi);
    }
}

/// Round robin takes turns in id order: the task it picks is ready and is
/// not the current one, and every task between the current one and it,
/// going up and wrapping around, is not ready; when it picks none, no other
/// task is ready.
pub proof fn law_round_robin_next(tasks: Seq<Tcb>, cur: int)
    requires
        0 <= cur < MAX_TASKS,
        tasks.len() == MAX_TASKS,
    ensures
        rr_next(tasks, cur) >= 0 ==> {
            let n = rr_next(tasks, cur);
            &&& 0 <= n < MAX_TASKS
            &&& n != cur
            &&& tasks[n].state == TaskState::Ready
            &&& forall|i: int| cur < i < MAX_TASKS && (n < cur || i < n) ==> (#[trigger] tasks[i]).state != TaskState::Ready
            &&& forall|i: int| 0 <= i < n && n < cur ==> (#[trigger] tasks[i]).state != TaskState::Ready
        },
        rr_next(tasks, cur) < 0 ==> forall|i: int| 0 <= i < MAX_TASKS && i != cur ==> (#[trigger] tasks[i]).state
            != TaskState::Ready,
{
    lemma_first_ready_id(tasks, cur + 1, MAX_TASKS as int);
    lemma_first_ready_id(tasks, 0, cur);
    lemma_first_ready_id_skips(tasks, cur + 1, MAX_TASKS as int);
    lemma_first_ready_id_skips(tasks, 0, cur);
}

/// The task that `peek_spec` names is a ready task queued at the priority
/// it reports.
proof fn lemma_peek_is_queued_ready(qs: Seq<Seq<usize>>, tasks: Seq<Tcb>)
    requires
        qs.len() == PRIORITY_COUNT,
        peek_spec(qs, tasks) is Some,
    ensures
        ({
            let p = peek_spec(qs, tasks).unwrap().1.spec_as_u8() as int;
            &&& 0 <= p < PRIORITY_COUNT
            &&& p == top_ready(qs, tasks)
            &&& 0 <= first_ready(qs[p], tasks) < qs[p].len()
            &&& qs[p][first_ready(qs[p], tasks)] == peek_spec(qs, tasks).unwrap().0
            &&& is_ready(tasks, peek_spec(qs, tasks).unwrap().0)
        }),
{
    lemma_top_ready_from(qs, tasks, PRIORITY_COUNT as int - 1);
    let p = top_ready(qs, tasks);
    lemma_first_ready(qs[p], tasks);
}

/// Priority scheduling never preempts a running task for one of equal or
/// lower priority: when the current task runs and every ready task queued
/// anywhere sits in a queue of a priority no higher than the current task's,
/// a priority switch changes neither the task table, nor the queues, nor the
/// current task, nor the published current id.
pub proof fn law_priority_switch_needs_higher_priority(k: Kernel)
    requires
        k.wf(),
        k.sched.current_task is Some,
        k.tasks@[k.sched.current_task.unwrap().0 as int].state == TaskState::Running,
        forall|p: int, i: int|
            0 <= p < PRIORITY_COUNT && 0 <= i < k.sched.queues()[p].len() && is_ready(
                k.tasks@,
                #[trigger] k.sched.queues()[p][i],
            ) ==> p <= k.tasks@[k.sched.current_task.unwrap().0 as int].priority.spec_as_u8(),
    ensures
        by_priority_spec(k.sched_running, sched_view(k)) == sched_view(k),
{
    let v = sched_view(k);
    k.sched.lemma_wf();
    if peek_spec(v.1, v.0) is Some {
        lemma_peek_is_queued_ready(v.1, v.0);
        let p = peek_spec(v.1, v.0).unwrap().1.spec_as_u8() as int;
        let i = first_ready(v.1[p], v.0);
        assert(is_ready(k.tasks@, k.sched.queues()[p][i]));
    }
}

/// When a priority switch replaces a running current task by another, the
/// task it replaces becomes ready and goes back to the ready queue of its
/// own priority: its id is queued there afterwards, once, and that queue
/// holds no id twice.
pub proof fn law_preempted_task_is_requeued(k: Kernel)
    requires
        k.wf(),
        k.sched.current_task is Some,
        k.tasks@[k.sched.current_task.unwrap().0 as int].state == TaskState::Running,
        by_priority_spec(k.sched_running, sched_view(k)).2 != k.sched.current_task,
    ensures
        ({
            let c = k.sched.current_task.unwrap().0 as int;
            let r = by_priority_spec(k.sched_running, sched_view(k));
            let p = k.tasks@[c].priority.spec_as_u8() as int;
            &&& r.0[c].state == TaskState::Ready
            &&& r.1[p].contains(k.tasks@[c].taskid)
            &&& r.1[p].no_duplicates()
        }),
{
    let v = sched_view(k);
    let c = k.sched.current_task.unwrap().0 as int;
    let ctid = k.tasks@[c].taskid;
    let cp = k.tasks@[c].priority;
    let p = cp.spec_as_u8() as int;
    k.sched.lemma_wf();
    let pk = peek_spec(v.1, v.0);
    lemma_peek_is_queued_ready(v.1, v.0);
    let n = pk.unwrap().0;
    let q1 = take_spec(v.1, v.0);
    let t = top_ready(v.1, v.0);
    assert(0 <= p < PRIORITY_COUNT);
    assert(ctid < MAX_TASKS);
    assert(v.1[p].no_duplicates());
    let qp = q1[p];
    assert(qp.no_duplicates() && forall|i: int| 0 <= i < qp.len() ==> #[trigger] qp[i] < MAX_TASKS) by {
        if p == t {
            let f = first_ready(v.1[p], v.0);
            assert(qp == v.1[p].skip(f + 1));
            assert forall|i: int| 0 <= i < qp.len() implies #[trigger] qp[i] < MAX_TASKS by {
                assert(qp[i] == v.1[p][i + f + 1]);
            }
            assert forall|i: int, j: int| 0 <= i < qp.len() && 0 <= j < qp.len() && i != j implies qp[i] != qp[j] by {
                assert(qp[i] == v.1[p][i + f + 1] && qp[j] == v.1[p][j + f + 1]);
            }
        } else if p > t {
            assert(qp =~= Seq::<usize>::empty());
        } else {
            assert(qp == v.1[p]);
            assert forall|i: int| 0 <= i < qp.len() implies #[trigger] qp[i] < MAX_TASKS by {
                assert(v.1[p][i] < MAX_TASKS);
            }
        }
    }
    if !qp.contains(ctid) {
        lemma_room_for_missing_id(qp, ctid);
        crate::kernel::scheduler::ready_queue::lemma_push_no_duplicates(qp, ctid);
        assert(qp.push(ctid)[qp.len() as int] == ctid);
    }
    let q2 = enqueue_spec(q1, ctid, cp);
    assert(q2[p] == if qp.contains(ctid) { qp } else { qp.push(ctid) });
    assert(n as int != c);
}

/// Whether `q` lists its ids in strictly ascending order.
pub open spec fn ascending(q: Seq<usize>) -> bool {
    forall|i: int, j: int| 0 <= i < j < q.len() ==> q[i] < q[j]
}

/// The queues `start` builds from empty queues after the first `n` slots:
/// each priority's queue lists, in ascending id order, exactly the ready
/// tasks among those slots whose priority it is.
proof fn lemma_enqueue_all_by_id(qs: Seq<Seq<usize>>, tasks: Seq<Tcb>, n: int)
    requires
        qs.len() == PRIORITY_COUNT,
        forall|p: int| 0 <= p < PRIORITY_COUNT ==> (#[trigger] qs[p]).len() == 0,
        tasks.len() == MAX_TASKS,
        0 <= n <= MAX_TASKS,
    ensures
        enqueue_all(qs, tasks, n).len() == PRIORITY_COUNT,
        forall|p: int| 0 <= p < PRIORITY_COUNT ==> {
            let q = #[trigger] enqueue_all(qs, tasks, n)[p];
            &&& ascending(q)
            &&& q.len() <= n
            &&& forall|i: int| 0 <= i < q.len() ==> q[i] < n
            &&& forall|x: int| 0 <= x < n ==> (q.contains(x as usize) <==> tasks[x].state == TaskState::Ready
                && tasks[x].priority.spec_as_u8() == p)
        },
    decreases n,
{
    if n > 0 {
        lemma_enqueue_all_by_id(qs, tasks, n - 1);
        let q0 = enqueue_all(qs, tasks, n - 1);
        let m = (n - 1) as usize;
        let r = enqueue_all(qs, tasks, n);
        if tasks[n - 1].state == TaskState::Ready {
            let pp = tasks[n - 1].priority.spec_as_u8() as int;
            assert(!q0[pp].contains(m)) by {
                if q0[pp].contains(m) {
                    let i = choose|i: int| 0 <= i < q0[pp].len() && q0[pp][i] == m;
                    assert(q0[pp][i] < n - 1);
                }
            }
            assert(r[pp] == q0[pp].push(m));
            assert forall|p: int| 0 <= p < PRIORITY_COUNT implies {
                let q = #[trigger] r[p];
                &&& ascending(q)
                &&& q.len() <= n
                &&& forall|i: int| 0 <= i < q.len() ==> q[i] < n
                &&& forall|x: int| 0 <= x < n ==> (q.contains(x as usize) <==> tasks[x].state == TaskState::Ready
                    && tasks[x].priority.spec_as_u8() == p)
            } by {
                if p == pp {
                    let q = r[p];
                    assert forall|x: int| 0 <= x < n implies (q.contains(x as usize) <==> tasks[x].state
                        == TaskState::Ready && tasks[x].priority.spec_as_u8() == p) by {
                        if x == n - 1 {
                            assert(q[q.len() - 1] == m);
                        } else {
                            if q0[p].contains(x as usize) {
                                let i = choose|i: int| 0 <= i < q0[p].len() && q0[p][i] == x as usize;
                                assert(q[i] == x as usize);
                            }
                            if q.contains(x as usize) {
                                let i = choose|i: int| 0 <= i < q.len() && q[i] == x as usize;
                                assert(i < q0[p].len());
                                assert(q0[p][i] == x as usize);
                            }
                        }
                    }
                } else {
                    assert(r[p] == q0[p]);
                }
            }
        } else {
            assert(r == q0);
        }
    }
}

/// After `start` on empty ready queues (as `init` and `kernel_init` leave
/// them), the queue of each priority lists exactly the ready tasks of that
/// priority, in ascending id order, so that among tasks of equal priority
/// the lower id runs first.
pub proof fn law_start_queues_ready_tasks_by_id(k: Kernel)
    requires
        k.wf(),
        forall|p: int| 0 <= p < PRIORITY_COUNT ==> (#[trigger] k.sched.queues()[p]).len() == 0,
    ensures
        ({
            let q = enqueue_all(k.sched.queues(), k.tasks@, MAX_TASKS as int);
            forall|p: int| 0 <= p < PRIORITY_COUNT ==> {
                &&& ascending(#[trigger] q[p])
                &&& forall|x: int| 0 <= x < MAX_TASKS ==> (q[p].contains(x as usize) <==> k.tasks@[x].state
                    == TaskState::Ready && k.tasks@[x].priority.spec_as_u8() == p)
            }
        }),
{
    k.sched.lemma_wf();
    lemma_enqueue_all_by_id(k.sched.queues(), k.tasks@, MAX_TASKS as int);
}

} // verus!
