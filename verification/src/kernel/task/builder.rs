use vstd::prelude::*;
use crate::error::Result;
use crate::kernel::Kernel;
use crate::kernel::task::{Priority, Task, TaskState, Tcb, first_free, stack_top_of};
use crate::config::MAX_TASKS;

verus! {

/// Collects a task's name and priority before the task is created.
pub struct TaskBuilder {
    /// The task's name.
    pub name: &'static str,
    /// The task's priority.
    pub priority: Priority,
}

impl TaskBuilder {
    /// A builder for a task named `name`, with the normal priority.
    pub fn new(name: &'static str) -> (r: TaskBuilder)
        ensures
            r.name == name,
            r.priority == Priority::Normal,
    {
        TaskBuilder { name, priority: Priority::Normal }
    }

    /// Sets the priority of the task to create.
    pub fn priority(self, priority: Priority) -> (r: TaskBuilder)
        ensures
            r.name == self.name,
            r.priority == priority,
    {
        TaskBuilder { name: self.name, priority }
    }

    /// Creates the task, as `Task::new` does, and gives it the priority.
    pub fn spawn(self, k: &mut Kernel) -> (r: Result<Task>)
        requires
            old(k).wf(),
        ensures
            final(k).wf(),
            final(k).same_but_tasks(*old(k)),
            first_free(old(k).tasks@, MAX_TASKS as int) < 0 ==> r is Err && r->Err_0
                == crate::error::RtosError::TaskSlotsFull && final(k).tasks@ == old(k).tasks@,
            first_free(old(k).tasks@, MAX_TASKS as int) >= 0 ==> r == Ok::<Task, crate::error::RtosError>(
                Task(first_free(old(k).tasks@, MAX_TASKS as int) as usize),
            ) && final(k).tasks@ == old(k).tasks@.update(
                first_free(old(k).tasks@, MAX_TASKS as int),
                Tcb {
                    stack_top: stack_top_of(first_free(old(k).tasks@, MAX_TASKS as int)) as usize,
                    name: self.name,
                    taskid: first_free(old(k).tasks@, MAX_TASKS as int) as usize,
                    state: TaskState::Ready,
                    priority: self.priority,
                },
            ),
    {
        let ghost k0 = *k;
        let mut task = Task::new(k, self.name)?;
        let ghost k1 = k.tasks@;
        task.set_priority(k, self.priority);
        assert(k.tasks@ =~= k0.tasks@.update(
            first_free(k0.tasks@, MAX_TASKS as int),
            Tcb {
                stack_top: stack_top_of(first_free(k0.tasks@, MAX_TASKS as int)) as usize,
                name: self.name,
                taskid: first_free(k0.tasks@, MAX_TASKS as int) as usize,
                state: TaskState::Ready,
                priority: self.priority,
            },
        ));
        Ok(task)
    }
}

} // verus!
