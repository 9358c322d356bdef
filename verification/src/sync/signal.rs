use vstd::prelude::*;
use crate::config::MAX_TASKS;
use crate::kernel::Kernel;
use crate::kernel::scheduler::{Scheduler, set_state};
use crate::kernel::task::{TaskState, Tcb};
use crate::sync::event::{Event, wake_all};

verus! {

/// A FIFO of waiting task ids, at most `MAX_TASKS` long.
pub struct WaiterList {
    ids: Vec<usize>,
}

impl WaiterList {
    /// The waiting task ids, oldest first.
    pub closed spec fn view(&self) -> Seq<usize> {
        self.ids@
    }

    /// The list is within its capacity.
    pub closed spec fn wf(&self) -> bool {
        self.ids@.len() <= MAX_TASKS
    }

    /// An empty list.
    pub fn new() -> (r: WaiterList)
        ensures
            r.wf(),
            r@ == Seq::<usize>::empty(),
    {
        WaiterList { ids: Vec::new() }
    }

    /// Whether `task_id` waits.
    pub fn contains(&self, task_id: usize) -> (r: bool)
        ensures
            r <==> self@.contains(task_id),
    {
        let mut i: usize = 0;
        while i < self.ids.len()
            invariant
                i <= self.ids@.len(),
                forall|j: int| 0 <= j < i ==> self.ids@[j] != task_id,
            decreases self.ids@.len() - i,
        {
            if self.ids[i] == task_id {
                assert(self@[i as int] == task_id);
                return true;
            }
            i = i + 1;
        }
        false
    }

    /// Appends `task_id`; `false` when the list is full.
    pub fn push(&mut self, task_id: usize) -> (r: bool)
        requires
            old(self).wf(),
        ensures
            final(self).wf(),
            r <==> old(self)@.len() < MAX_TASKS,
            r ==> final(self)@ == old(self)@.push(task_id),
            !r ==> final(self)@ == old(self)@,
    {
        if self.ids.len() >= MAX_TASKS {
            return false;
        }
        self.ids.push(task_id);
        true
    }

    /// Removes and returns the oldest waiting id.
    pub fn pop_front(&mut self) -> (r: Option<usize>)
        requires
            old(self).wf(),
        ensures
            final(self).wf(),
            old(self)@.len() == 0 ==> r is None && final(self)@ == old(self)@,
            old(self)@.len() > 0 ==> r == Some(old(self)@[0]) && final(self)@ == old(self)@.drop_first(),
    {
        if self.ids.len() == 0 {
            return None;
        }
        let x = self.ids.remove(0);
        assert(self.ids@ =~= old(self)@.drop_first());
        Some(x)
    }

    /// The number of waiting ids.
    pub fn len(&self) -> (r: usize)
        ensures
            r == self@.len(),
    {
        self.ids.len()
    }
}

/// The source of signal ids: the id the next opened signal gets.
pub struct SignalIds {
    pub next: usize,
}

impl SignalIds {
    /// Ids start at 0.
    pub fn new() -> (r: SignalIds)
        ensures
            r.next == 0,
    {
        SignalIds { next: 0 }
    }
}

/// A signal that tasks wait for; unopened while its id is `usize::MAX`.
#[derive(Debug, Clone, Copy, PartialEq, Eq, Structural)]
pub struct Signal {
    pub id: usize,
}

impl Signal {
    /// An unopened signal.
    pub fn new() -> (r: Signal)
        ensures
            r.id == usize::MAX,
    {
        Signal { id: usize::MAX }
    }

    /// Gives an unopened signal the next id, the ids counting up and
    /// wrapping around; an opened signal keeps its id.
    pub fn open(&mut self, ids: &mut SignalIds)
        ensures
            old(self).id == usize::MAX ==> final(self).id == old(ids).next && final(ids).next == (if old(
                ids,
            ).next == usize::MAX {
                0
            } else {
                old(ids).next + 1
            }),
            old(self).id != usize::MAX ==> *final(self) == *old(self) && final(ids).next == old(ids).next,
    {
        if self.id == usize::MAX {
            self.id = ids.next;
            ids.next = if ids.next == usize::MAX { 0 } else { ids.next + 1 };
        }
    }

    /// Makes every task waiting for the signal ready.
    pub fn send(&self, k: &mut Kernel)
        requires
            old(k).wf(),
        ensures
            final(k).wf(),
            final(k).same_but_tasks(*old(k)),
            final(k).tasks@ == wake_all(old(k).tasks@, Event::Signal(self.id)),
    {
        Event::wake_task(k, Event::Signal(self.id));
    }

    /// Blocks the current task until the signal is sent.
    pub fn wait(&self, k: &mut Kernel)
        requires
            old(k).wf(),
        ensures
            final(k).wf(),
            final(k).same_but_tasks(*old(k)),
            final(k).tasks@ == set_state(old(k).tasks@, old(k).current_task_id as int, TaskState::Blocked(Event::Signal(self.id))),
    {
        let mut current = Scheduler::get_current_task(k);
        current.block(k, Event::Signal(self.id));
    }
}

/// A task that waits for a signal is made ready by the next send: waiting
/// blocks it on the signal, and a send wakes every task blocked on it.
pub proof fn law_send_wakes_waiter(tasks: Seq<Tcb>, cur: int, id: usize)
    requires
        0 <= cur < tasks.len(),
    ensures
        wake_all(set_state(tasks, cur, TaskState::Blocked(Event::Signal(id))), Event::Signal(id))[cur].state
            == TaskState::Ready,
{
}

} // verus!
