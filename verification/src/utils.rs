use vstd::prelude::*;
use crate::config::{MAX_MQS, MAX_TASKS, MAX_TIMERS};
use crate::kernel::Kernel;
use crate::kernel::scheduler::SchedulerInner;
use crate::kernel::scheduler::inner::PRIORITY_COUNT;
use crate::kernel::task::{Priority, TaskState, Tcb, uninit_tcb};
use crate::kernel::time::timer::TimerManager;

verus! {

/// A freshly initialised kernel: every task slot, timer slot and message
/// queue id free, empty ready queues, no current task, the scheduler
/// stopped with priority scheduling off, and the tick counter at 0.
pub fn kernel_init() -> (k: Kernel)
    ensures
        k.wf(),
        forall|i: int| 0 <= i < MAX_TASKS ==> #[trigger] uninit_tcb(k.tasks@[i]),
        forall|p: int| 0 <= p < PRIORITY_COUNT ==> (#[trigger] k.sched.queues()[p]).len() == 0,
        k.sched.current_task is None,
        k.sched.next_task is None,
        !k.sched_running,
        !k.use_priority,
        k.current_task_id == 0,
        k.time == 0,
        k.timers.heap@.len() == 0,
        forall|i: int| 0 <= i < MAX_TIMERS ==> #[trigger] k.timers.timers@[i] is None,
        forall|i: int| 0 <= i < MAX_MQS ==> !(#[trigger] k.mq_slots@[i]),
{
    let mut tasks: Vec<Tcb> = Vec::new();
    let mut i: usize = 0;
    while i < MAX_TASKS
        invariant
            i <= MAX_TASKS,
            tasks@.len() == i,
            forall|j: int| 0 <= j < i ==> #[trigger] uninit_tcb(tasks@[j]),
        decreases MAX_TASKS - i,
    {
        tasks.push(
            Tcb { stack_top: 0, name: "noinit", taskid: 0, state: TaskState::Uninit, priority: Priority::Normal },
        );
        i = i + 1;
    }
    let mut mq_slots: Vec<bool> = Vec::new();
    let mut j: usize = 0;
    while j < MAX_MQS
        invariant
            j <= MAX_MQS,
            mq_slots@.len() == j,
            forall|x: int| 0 <= x < j ==> !(#[trigger] mq_slots@[x]),
        decreases MAX_MQS - j,
    {
        mq_slots.push(false);
        j = j + 1;
    }
    assert forall|x: int| 0 <= x < MAX_TASKS implies #[trigger] tasks@[x].taskid < MAX_TASKS by {
        assert(uninit_tcb(tasks@[x]));
    }
    Kernel {
        tasks,
        sched: SchedulerInner::new(),
        sched_running: false,
        use_priority: false,
        current_task_id: 0,
        time: 0,
        timers: TimerManager::new(),
        mq_slots,
    }
}

} // verus!
