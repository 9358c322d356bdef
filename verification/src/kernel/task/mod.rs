pub mod builder;
pub mod priority;

pub use builder::TaskBuilder;
pub use priority::Priority;

use vstd::prelude::*;
use crate::config::{MAX_TASKS, STACK_SIZE};
use crate::error::{Result, RtosError};
use crate::kernel::Kernel;
use crate::sync::event::Event;

verus! {

/// The life-cycle state of a task slot.
#[derive(Debug, PartialEq, Eq, Clone, Copy, Structural)]
pub enum TaskState {
    Uninit,
    Ready,
    Running,
    Blocked(Event),
}

/// A task control block.
#[derive(Clone, Copy)]
pub struct Tcb {
    /// Offset of the top of the task's stack within the stack area.
    pub stack_top: usize,
    /// The task's name.
    pub name: &'static str,
    /// The task's id, its slot in the task table.
    pub taskid: usize,
    /// The task's state.
    pub state: TaskState,
    /// The task's priority.
    pub priority: Priority,
}

/// The control block of a free slot.
pub open spec fn uninit_tcb(t: Tcb) -> bool {
    &&& t.stack_top == 0
    &&& t.taskid == 0
    &&& t.state == TaskState::Uninit
    &&& t.priority == Priority::Normal
}

/// The ids, ascending, of the slots in `lo..hi` that hold a task.
pub open spec fn init_ids(tasks: Seq<Tcb>, lo: int, hi: int) -> Seq<usize>
    decreases hi - lo,
{
    if hi <= lo {
        Seq::empty()
    } else if tasks[hi - 1].state != TaskState::Uninit {
        init_ids(tasks, lo, hi - 1).push((hi - 1) as usize)
    } else {
        init_ids(tasks, lo, hi - 1)
    }
}

/// The first free slot in `0..n`, or -1.
pub open spec fn first_free(tasks: Seq<Tcb>, n: int) -> int
    decreases n,
{
    if n <= 0 {
        -1
    } else if first_free(tasks, n - 1) >= 0 {
        first_free(tasks, n - 1)
    } else if tasks[n - 1].state == TaskState::Uninit {
        n - 1
    } else {
        -1
    }
}

/// What `first_free` means.
pub proof fn lemma_first_free(tasks: Seq<Tcb>, n: int)
    requires
        0 <= n <= tasks.len(),
    ensures
        first_free(tasks, n) < n,
        first_free(tasks, n) >= 0 ==> tasks[first_free(tasks, n)].state == TaskState::Uninit
            && forall|j: int| 0 <= j < first_free(tasks, n) ==> #[trigger] tasks[j].state != TaskState::Uninit,
        first_free(tasks, n) < 0 ==> first_free(tasks, n) == -1 && forall|j: int|
            0 <= j < n ==> #[trigger] tasks[j].state != TaskState::Uninit,
    decreases n,
{
    if n > 0 {
        lemma_first_free(tasks, n - 1);
    }
}

/// The end of the stack of slot `i`, counted from the start of the stack area.
pub open spec fn stack_top_of(i: int) -> int {
    (i + 1) * STACK_SIZE as int
}

/// A handle on a task: its slot in the task table.
#[derive(Clone, Copy, PartialEq, Eq, Debug, Structural)]
pub struct Task(pub usize);

impl Task {
    /// Frees every task slot.
    pub fn init(k: &mut Kernel)
        requires
            old(k).wf(),
        ensures
            final(k).wf(),
            final(k).same_but_tasks(*old(k)),
            final(k).tasks@.len() == MAX_TASKS,
            forall|i: int| 0 <= i < MAX_TASKS ==> #[trigger] uninit_tcb(final(k).tasks@[i]),
    {
        let mut i: usize = 0;
        while i < MAX_TASKS
            invariant
                i <= MAX_TASKS,
                old(k).wf(),
                k.tasks@.len() == MAX_TASKS,
                k.same_but_tasks(*old(k)),
                k.tasks_wf(),
                forall|j: int| 0 <= j < i ==> #[trigger] uninit_tcb(k.tasks@[j]),
            decreases MAX_TASKS - i,
        {
            k.tasks.set(
                i,
                Tcb {
                    stack_top: 0,
                    name: "noinit",
                    taskid: 0,
                    state: TaskState::Uninit,
                    priority: Priority::Normal,
                },
            );
            i = i + 1;
        }
    }

    /// Puts a new task named `name` in the first free slot, ready, with the
    /// normal priority; `TaskSlotsFull` when no slot is free.
    pub fn new(k: &mut Kernel, name: &'static str) -> (r: Result<Task>)
        requires
            old(k).wf(),
        ensures
            final(k).wf(),
            final(k).same_but_tasks(*old(k)),
            first_free(old(k).tasks@, MAX_TASKS as int) < MAX_TASKS,
            first_free(old(k).tasks@, MAX_TASKS as int) < 0 ==> r == Err::<Task, RtosError>(
                RtosError::TaskSlotsFull,
            ) && final(k).tasks@ == old(k).tasks@,
            first_free(old(k).tasks@, MAX_TASKS as int) >= 0 ==> r == Ok::<Task, RtosError>(
                Task(first_free(old(k).tasks@, MAX_TASKS as int) as usize),
            ) && final(k).tasks@ == old(k).tasks@.update(
                first_free(old(k).tasks@, MAX_TASKS as int),
                Tcb {
                    stack_top: stack_top_of(first_free(old(k).tasks@, MAX_TASKS as int)) as usize,
                    name,
                    taskid: first_free(old(k).tasks@, MAX_TASKS as int) as usize,
                    state: TaskState::Ready,
                    priority: Priority::Normal,
                },
            ),
    {
        proof {
            lemma_first_free(k.tasks@, MAX_TASKS as int);
        }
        let mut i: usize = 0;
        while i < MAX_TASKS
            invariant
                i <= MAX_TASKS,
                k.wf(),
                *k == *old(k),
                forall|j: int| 0 <= j < i ==> #[trigger] k.tasks@[j].state != TaskState::Uninit,
            decreases MAX_TASKS - i,
        {
            if k.tasks[i].state == TaskState::Uninit {
                proof {
                    lemma_first_free(k.tasks@, MAX_TASKS as int);
                    let f = first_free(k.tasks@, MAX_TASKS as int);
                    if f != i {
                        assert(k.tasks@[f].state == TaskState::Uninit);
                    }
                }
                let tcb = Tcb {
                    stack_top: (i + 1) * STACK_SIZE,
                    name,
                    taskid: i,
                    state: TaskState::Ready,
                    priority: Priority::Normal,
                };
                k.tasks.set(i, tcb);
                return Ok(Task(i));
            }
            i = i + 1;
        }
        Err(RtosError::TaskSlotsFull)
    }

    /// Makes the task running.
    pub fn run(&mut self, k: &mut Kernel)
        requires
            old(k).wf(),
            old(self).0 < MAX_TASKS,
        ensures
            *final(self) == *old(self),
            final(k).wf(),
            final(k).same_but_tasks(*old(k)),
            final(k).tasks@ == old(k).tasks@.update(
                old(self).0 as int,
                Tcb { state: TaskState::Running, ..old(k).tasks@[old(self).0 as int] },
            ),
    {
        let t = k.tasks[self.0];
        k.tasks.set(self.0, Tcb { state: TaskState::Running, ..t });
    }

    /// Makes the task ready.
    pub fn ready(&mut self, k: &mut Kernel)
        requires
            old(k).wf(),
            old(self).0 < MAX_TASKS,
        ensures
            *final(self) == *old(self),
            final(k).wf(),
            final(k).same_but_tasks(*old(k)),
            final(k).tasks@ == old(k).tasks@.update(
                old(self).0 as int,
                Tcb { state: TaskState::Ready, ..old(k).tasks@[old(self).0 as int] },
            ),
    {
        let t = k.tasks[self.0];
        k.tasks.set(self.0, Tcb { state: TaskState::Ready, ..t });
    }

    /// Blocks the task on `reason`.
    pub fn block(&mut self, k: &mut Kernel, reason: Event)
        requires
            old(k).wf(),
            old(self).0 < MAX_TASKS,
        ensures
            *final(self) == *old(self),
            final(k).wf(),
            final(k).same_but_tasks(*old(k)),
            final(k).tasks@ == old(k).tasks@.update(
                old(self).0 as int,
                Tcb { state: TaskState::Blocked(reason), ..old(k).tasks@[old(self).0 as int] },
            ),
    {
        let t = k.tasks[self.0];
        k.tasks.set(self.0, Tcb { state: TaskState::Blocked(reason), ..t });
    }

    /// The task's state.
    pub fn get_state(&self, k: &Kernel) -> (r: TaskState)
        requires
            k.wf(),
            self.0 < MAX_TASKS,
        ensures
            r == k.tasks@[self.0 as int].state,
    {
        k.tasks[self.0].state
    }

    /// The task's name.
    pub fn get_name(&self, k: &Kernel) -> (r: &'static str)
        requires
            k.wf(),
            self.0 < MAX_TASKS,
        ensures
            r == k.tasks@[self.0 as int].name,
    {
        k.tasks[self.0].name
    }

    /// The task's id.
    pub fn get_taskid(&self, k: &Kernel) -> (r: usize)
        requires
            k.wf(),
            self.0 < MAX_TASKS,
        ensures
            r == k.tasks@[self.0 as int].taskid,
            r < MAX_TASKS,
    {
        k.tasks[self.0].taskid
    }

    /// The task's priority.
    pub fn get_priority(&self, k: &Kernel) -> (r: Priority)
        requires
            k.wf(),
            self.0 < MAX_TASKS,
        ensures
            r == k.tasks@[self.0 as int].priority,
    {
        k.tasks[self.0].priority
    }

    /// Sets the task's priority.
    pub fn set_priority(&mut self, k: &mut Kernel, priority: Priority)
        requires
            old(k).wf(),
            old(self).0 < MAX_TASKS,
        ensures
            *final(self) == *old(self),
            final(k).wf(),
            final(k).same_but_tasks(*old(k)),
            final(k).tasks@ == old(k).tasks@.update(
                old(self).0 as int,
                Tcb { priority, ..old(k).tasks@[old(self).0 as int] },
            ),
    {
        let t = k.tasks[self.0];
        k.tasks.set(self.0, Tcb { priority, ..t });
    }

    /// The top of the task's stack.
    pub fn get_stack_top(&self, k: &Kernel) -> (r: usize)
        requires
            k.wf(),
            self.0 < MAX_TASKS,
        ensures
            r == k.tasks@[self.0 as int].stack_top,
    {
        k.tasks[self.0].stack_top
    }

    /// Records the top of the task's stack.
    pub fn set_stack_top(&mut self, k: &mut Kernel, stack_top: usize)
        requires
            old(k).wf(),
            old(self).0 < MAX_TASKS,
        ensures
            *final(self) == *old(self),
            final(k).wf(),
            final(k).same_but_tasks(*old(k)),
            final(k).tasks@ == old(k).tasks@.update(
                old(self).0 as int,
                Tcb { stack_top, ..old(k).tasks@[old(self).0 as int] },
            ),
    {
        let t = k.tasks[self.0];
        k.tasks.set(self.0, Tcb { stack_top, ..t });
    }

    /// The tasks of the slots in `lo..hi` that hold one, by ascending id.
    fn collect(k: &Kernel, lo: usize, hi: usize, out: &mut Vec<Task>)
        requires
            k.wf(),
            lo <= hi <= MAX_TASKS,
        ensures
            final(out)@.map_values(|t: Task| t.0) == old(out)@.map_values(|t: Task| t.0) + init_ids(
                k.tasks@,
                lo as int,
                hi as int,
            ),
    {
        let ghost start = out@.map_values(|t: Task| t.0);
        let mut i = lo;
        while i < hi
            invariant
                k.wf(),
                lo <= i <= hi <= MAX_TASKS,
                out@.map_values(|t: Task| t.0) == start + init_ids(k.tasks@, lo as int, i as int),
            decreases hi - i,
        {
            if k.tasks[i].state != TaskState::Uninit {
                let ghost before = out@;
                out.push(Task(i));
                assert(out@.map_values(|t: Task| t.0) =~= before.map_values(|t: Task| t.0).push(i));
                assert(start + init_ids(k.tasks@, lo as int, i + 1) =~= (start + init_ids(
                    k.tasks@,
                    lo as int,
                    i as int,
                )).push(i));
            }
            i = i + 1;
        }
    }

    /// The tasks in use, by ascending id.
    pub fn for_each(k: &Kernel) -> (r: Vec<Task>)
        requires
            k.wf(),
        ensures
            r@.map_values(|t: Task| t.0) == init_ids(k.tasks@, 0, MAX_TASKS as int),
    {
        let mut out: Vec<Task> = Vec::new();
        Task::collect(k, 0, MAX_TASKS, &mut out);
        assert(Seq::<Task>::empty().map_values(|t: Task| t.0) + init_ids(k.tasks@, 0, MAX_TASKS as int)
            =~= init_ids(k.tasks@, 0, MAX_TASKS as int));
        out
    }

    /// The tasks in use, from slot `start` up to the last slot, then from
    /// the first slot up to `start`.
    pub fn for_each_from(k: &Kernel, start: usize) -> (r: Vec<Task>)
        requires
            k.wf(),
            start <= MAX_TASKS,
        ensures
            r@.map_values(|t: Task| t.0) == init_ids(k.tasks@, start as int, MAX_TASKS as int)
                + init_ids(k.tasks@, 0, start as int),
    {
        let mut out: Vec<Task> = Vec::new();
        Task::collect(k, start, MAX_TASKS, &mut out);
        Task::collect(k, 0, start, &mut out);
        assert(Seq::<Task>::empty().map_values(|t: Task| t.0) + init_ids(
            k.tasks@,
            start as int,
            MAX_TASKS as int,
        ) =~= init_ids(k.tasks@, start as int, MAX_TASKS as int));
        out
    }
}

/// Task stacks are 8-byte aligned and apart: every slot's stack top is a
/// multiple of 8, and the tops of two slots are at least `STACK_SIZE` apart.
pub proof fn law_stack_tops_aligned_and_apart(i: int, j: int)
    requires
        0 <= i < MAX_TASKS,
        0 <= j < MAX_TASKS,
        i < j,
    ensures
        stack_top_of(i) % 8 == 0,
        stack_top_of(j) - stack_top_of(i) >= STACK_SIZE,
{
    assert(stack_top_of(i) == (i + 1) * 1024);
    assert(stack_top_of(j) == (j + 1) * 1024);
}

} // verus!
