pub mod scheduler;
pub mod task;
pub mod time;

use vstd::prelude::*;
use crate::config::{MAX_MQS, MAX_TASKS};
use crate::kernel::scheduler::SchedulerInner;
use crate::kernel::task::Tcb;
use crate::kernel::time::timer::TimerManager;

verus! {

/// The whole kernel state: the task table, the scheduler, the tick counter,
/// the timers and the message queue slots.
pub struct Kernel {
    /// One control block per task slot.
    pub tasks: Vec<Tcb>,
    /// The ready queues and the current task.
    pub sched: SchedulerInner,
    /// Whether the scheduler has been started and not stopped.
    pub sched_running: bool,
    /// Whether priority scheduling replaces round robin.
    pub use_priority: bool,
    /// The id of the running task, as last published by the scheduler.
    pub current_task_id: usize,
    /// Ticks since the kernel was initialised.
    pub time: usize,
    /// The software timers.
    pub timers: TimerManager,
    /// Which message queue ids are taken.
    pub mq_slots: Vec<bool>,
}

impl Kernel {
    /// The task table has one slot per task and every task id is in range.
    pub open spec fn tasks_wf(&self) -> bool {
        &&& self.tasks@.len() == MAX_TASKS
        &&& forall|i: int| 0 <= i < MAX_TASKS ==> #[trigger] self.tasks@[i].taskid < MAX_TASKS
    }

    /// The kernel state is well formed. The published current task id is
    /// that of the scheduler's current task whenever there is one, and a
    /// running scheduler has a current task.
    pub open spec fn wf(&self) -> bool {
        &&& self.tasks_wf()
        &&& self.sched.wf()
        &&& self.current_task_id < MAX_TASKS
        &&& (self.sched.current_task is Some ==> self.sched.current_task.unwrap().0 < MAX_TASKS)
        &&& (self.sched.current_task is Some ==> self.sched.current_task.unwrap().0 == self.current_task_id)
        &&& (self.sched_running ==> self.sched.current_task is Some)
        &&& self.timers.wf()
        &&& self.mq_slots@.len() == MAX_MQS
    }

    /// Every part of the state but the scheduler's own is as in `o`.
    pub open spec fn same_but_sched(&self, o: Kernel) -> bool {
        &&& self.tasks == o.tasks
        &&& self.sched_running == o.sched_running
        &&& self.use_priority == o.use_priority
        &&& self.current_task_id == o.current_task_id
        &&& self.time == o.time
        &&& self.mq_slots == o.mq_slots
        &&& self.timers == o.timers
    }

    /// Every part of the state but the task table, the scheduler's own state
    /// and the current task id is as in `o`.
    pub open spec fn same_but_sched_and_tasks(&self, o: Kernel) -> bool {
        &&& self.sched_running == o.sched_running
        &&& self.use_priority == o.use_priority
        &&& self.time == o.time
        &&& self.mq_slots == o.mq_slots
        &&& self.timers == o.timers
    }

    /// Every part of the state but the message queue slots is as in `o`.
    pub open spec fn same_but_mq_slots(&self, o: Kernel) -> bool {
        &&& self.tasks == o.tasks
        &&& self.sched == o.sched
        &&& self.sched_running == o.sched_running
        &&& self.use_priority == o.use_priority
        &&& self.current_task_id == o.current_task_id
        &&& self.time == o.time
        &&& self.timers == o.timers
    }

    /// Every part of the state but the timers and the task table is as in `o`.
    pub open spec fn same_but_timers_and_tasks(&self, o: Kernel) -> bool {
        &&& self.sched == o.sched
        &&& self.sched_running == o.sched_running
        &&& self.use_priority == o.use_priority
        &&& self.current_task_id == o.current_task_id
        &&& self.time == o.time
        &&& self.mq_slots == o.mq_slots
    }

    /// Every part of the state but the timers is as in `o`.
    pub open spec fn same_but_timers(&self, o: Kernel) -> bool {
        &&& self.tasks == o.tasks
        &&& self.same_but_timers_and_tasks(o)
    }

    /// Every part of the state but the task table is as in `o`.
    pub open spec fn same_but_tasks(&self, o: Kernel) -> bool {
        &&& self.sched == o.sched
        &&& self.sched_running == o.sched_running
        &&& self.use_priority == o.use_priority
        &&& self.current_task_id == o.current_task_id
        &&& self.time == o.time
        &&& self.mq_slots == o.mq_slots
        &&& self.timers == o.timers
    }
}

} // verus!
