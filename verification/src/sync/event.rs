use vstd::prelude::*;
use crate::config::MAX_TASKS;
use crate::kernel::Kernel;
use crate::kernel::task::{Tcb, TaskState};

verus! {

/// What a blocked task waits for.
#[derive(Debug, PartialEq, Eq, Clone, Copy, Structural)]
pub enum Event {
    Signal(usize),
    Timer(usize),
    Ipc(usize),
    Memory(usize),
    Network(usize),
    Mutex(usize),
    Mq(usize),
    CondVar(usize),
    Barrier(usize),
    Once(usize),
    Async(usize),
}

/// The control block `t` after a wake-up for `e`: ready if it was blocked on
/// `e`, unchanged otherwise.
pub open spec fn woken_by(t: Tcb, e: Event) -> Tcb {
    if t.state == TaskState::Blocked(e) {
        Tcb { state: TaskState::Ready, ..t }
    } else {
        t
    }
}

/// The task table after every task blocked on `e` has been made ready.
pub open spec fn wake_all(tasks: Seq<Tcb>, e: Event) -> Seq<Tcb> {
    Seq::new(tasks.len(), |i: int| woken_by(tasks[i], e))
}

impl Event {
    /// Makes every task that is blocked on `event` ready.
    pub fn wake_task(k: &mut Kernel, event: Event)
        requires
            old(k).wf(),
        ensures
            final(k).wf(),
            final(k).tasks@ == wake_all(old(k).tasks@, event),
            final(k).same_but_tasks(*old(k)),
    {
        let ghost old_tasks = k.tasks@;
        let mut i: usize = 0;
        while i < MAX_TASKS
            invariant
                old(k).wf(),
                i <= MAX_TASKS,
                old_tasks == old(k).tasks@,
                k.tasks@.len() == MAX_TASKS,
                k.same_but_tasks(*old(k)),
                forall|j: int| 0 <= j < i ==> #[trigger] k.tasks@[j] == woken_by(old_tasks[j], event),
                forall|j: int| i <= j < MAX_TASKS ==> #[trigger] k.tasks@[j] == old_tasks[j],
            decreases MAX_TASKS - i,
        {
            let t = k.tasks[i];
            if t.state == TaskState::Blocked(event) {
                k.tasks.set(i, Tcb { state: TaskState::Ready, ..t });
            }
            i = i + 1;
        }
        assert(k.tasks@ =~= wake_all(old_tasks, event));
    }

    /// Makes task `task_id` ready if it is blocked on `event`; reports
    /// whether it did.
    pub fn wake_task_by_id_if(k: &mut Kernel, task_id: usize, event: Event) -> (r: bool)
        requires
            old(k).wf(),
        ensures
            final(k).wf(),
            final(k).same_but_tasks(*old(k)),
            r <==> task_id < MAX_TASKS && old(k).tasks@[task_id as int].state == TaskState::Blocked(
                event,
            ),
            r ==> final(k).tasks@ == old(k).tasks@.update(
                task_id as int,
                Tcb { state: TaskState::Ready, ..old(k).tasks@[task_id as int] },
            ),
            !r ==> final(k).tasks@ == old(k).tasks@,
    {
        if task_id >= MAX_TASKS {
            return false;
        }
        let t = k.tasks[task_id];
        if t.state == TaskState::Blocked(event) {
            k.tasks.set(task_id, Tcb { state: TaskState::Ready, ..t });
            true
        } else {
            false
        }
    }

    /// Makes task `task_id` ready if it is blocked, whatever it waits for.
    pub fn wake_task_by_id(k: &mut Kernel, task_id: usize)
        requires
            old(k).wf(),
        ensures
            final(k).wf(),
            final(k).same_but_tasks(*old(k)),
            (task_id < MAX_TASKS && old(k).tasks@[task_id as int].state is Blocked) ==> final(k).tasks@ == old(k).tasks@.update(
                task_id as int,
                Tcb { state: TaskState::Ready, ..old(k).tasks@[task_id as int] },
            ),
            !(task_id < MAX_TASKS && old(k).tasks@[task_id as int].state is Blocked) ==> final(k).tasks@ == old(k).tasks@,
    {
        if task_id >= MAX_TASKS {
            return;
        }
        let t = k.tasks[task_id];
        match t.state {
            TaskState::Blocked(_) => {
                k.tasks.set(task_id, Tcb { state: TaskState::Ready, ..t });
            },
            _ => {},
        }
    }
}

/// A wake-up for `e` makes exactly the tasks blocked on `e` ready and
/// leaves every other task as it was.
pub proof fn law_wake_task_exact(tasks: Seq<Tcb>, e: Event)
    ensures
        wake_all(tasks, e).len() == tasks.len(),
        forall|i: int| 0 <= i < tasks.len() && tasks[i].state == TaskState::Blocked(e) ==> (#[trigger] wake_all(tasks, e)[i]).state
            == TaskState::Ready,
        forall|i: int| 0 <= i < tasks.len() && tasks[i].state != TaskState::Blocked(e) ==> #[trigger] wake_all(tasks, e)[i]
            == tasks[i],
{
}

/// Waking the tasks blocked on an event a second time changes nothing.
pub proof fn law_wake_task_idempotent(tasks: Seq<Tcb>, e: Event)
    ensures
        wake_all(wake_all(tasks, e), e) == wake_all(tasks, e),
{
    assert(wake_all(wake_all(tasks, e), e) =~= wake_all(tasks, e));
}

} // verus!
