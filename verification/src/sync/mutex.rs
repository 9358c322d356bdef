//! Kernel mutexes with an owner.
//!
//! A lock of a held mutex blocks the current task on the mutex's event and
//! reports that the lock was not taken; the caller switches tasks and tries
//! again. Only the owner may unlock, and an unlock wakes every task blocked
//! on the mutex.
use vstd::prelude::*;
use crate::config::MAX_MUTEXES;
use crate::error::{Result, RtosError};
use crate::kernel::Kernel;
use crate::kernel::scheduler::{Scheduler, set_state};
use crate::kernel::task::TaskState;
use crate::sync::event::{Event, wake_all};

verus! {

/// The state of a mutex slot.
#[derive(Debug, Clone, Copy, PartialEq, Eq, Structural)]
pub struct MutexSlot {
    pub used: bool,
    pub locked: bool,
    /// The id of the task that holds the mutex.
    pub owner: Option<usize>,
}

/// The mutex slots.
pub struct MutexTable {
    pub slots: Vec<MutexSlot>,
}

/// The first unused slot in `0..n`, or -1.
pub open spec fn first_unused(slots: Seq<MutexSlot>, n: int) -> int
    decreases n,
{
    if n <= 0 {
        -1
    } else if first_unused(slots, n - 1) >= 0 {
        first_unused(slots, n - 1)
    } else if !slots[n - 1].used {
        n - 1
    } else {
        -1
    }
}

/// What `first_unused` means.
pub proof fn lemma_first_unused(slots: Seq<MutexSlot>, n: int)
    requires
        0 <= n <= slots.len(),
    ensures
        first_unused(slots, n) < n,
        first_unused(slots, n) >= 0 ==> !slots[first_unused(slots, n)].used && forall|j: int|
            0 <= j < first_unused(slots, n) ==> (#[trigger] slots[j]).used,
        first_unused(slots, n) < 0 ==> first_unused(slots, n) == -1 && forall|j: int|
            0 <= j < n ==> (#[trigger] slots[j]).used,
    decreases n,
{
    if n > 0 {
        lemma_first_unused(slots, n - 1);
    }
}

/// The slot of a free mutex.
pub open spec fn free_slot() -> MutexSlot {
    MutexSlot { used: false, locked: false, owner: None }
}

impl MutexTable {
    /// A table of `MAX_MUTEXES` free slots.
    pub fn new() -> (r: MutexTable)
        ensures
            r.wf(),
            forall|i: int| 0 <= i < MAX_MUTEXES ==> #[trigger] r.slots@[i] == free_slot(),
    {
        let mut slots: Vec<MutexSlot> = Vec::new();
        let mut i: usize = 0;
        while i < MAX_MUTEXES
            invariant
                i <= MAX_MUTEXES,
                slots@.len() == i,
                forall|j: int| 0 <= j < i ==> #[trigger] slots@[j] == free_slot(),
            decreases MAX_MUTEXES - i,
        {
            slots.push(MutexSlot { used: false, locked: false, owner: None });
            i = i + 1;
        }
        MutexTable { slots }
    }

    /// The table has one slot per mutex id.
    pub open spec fn wf(&self) -> bool {
        self.slots@.len() == MAX_MUTEXES
    }
}

/// A mutex: its slot in the mutex table.
#[derive(Debug, Clone, Copy, PartialEq, Eq, Structural)]
pub struct Mutex(pub usize);

/// Whether the current task of `k` holds the mutex in `slot`.
pub open spec fn held_by_current(slot: MutexSlot, k: Kernel) -> bool {
    slot.owner == Some(k.current_task_id)
}

/// The slot after task `task` took the mutex.
pub open spec fn after_lock(slot: MutexSlot, task: usize) -> MutexSlot {
    MutexSlot { locked: true, owner: Some(task), ..slot }
}

/// The slot after its holder released the mutex.
pub open spec fn after_unlock(slot: MutexSlot) -> MutexSlot {
    MutexSlot { locked: false, owner: None, ..slot }
}

/// Mutual exclusion: once a task took a mutex, no lock attempt takes it,
/// from that task or any other, and no other task can release it; its
/// holder can, and then the next attempt takes it.
pub proof fn law_mutual_exclusion(slot: MutexSlot, holder: usize, other: usize)
    requires
        !slot.locked,
        other != holder,
    ensures
        after_lock(slot, holder).locked,
        after_lock(slot, holder).owner != Some(other),
        after_lock(slot, holder).owner == Some(holder),
        !after_unlock(after_lock(slot, holder)).locked,
        after_lock(after_unlock(after_lock(slot, holder)), other).owner == Some(other),
{
}

impl Mutex {
    /// Frees every mutex slot.
    pub fn init(table: &mut MutexTable)
        requires
            old(table).wf(),
        ensures
            final(table).wf(),
            forall|i: int| 0 <= i < MAX_MUTEXES ==> #[trigger] final(table).slots@[i] == free_slot(),
    {
        let mut i: usize = 0;
        while i < MAX_MUTEXES
            invariant
                i <= MAX_MUTEXES,
                table.wf(),
                forall|j: int| 0 <= j < i ==> #[trigger] table.slots@[j] == free_slot(),
            decreases MAX_MUTEXES - i,
        {
            table.slots.set(i, MutexSlot { used: false, locked: false, owner: None });
            i = i + 1;
        }
    }

    /// Takes the first unused slot for a mutex that nobody holds;
    /// `MutexSlotsFull` when every slot is used.
    pub fn new(table: &mut MutexTable) -> (r: Result<Mutex>)
        requires
            old(table).wf(),
        ensures
            final(table).wf(),
            first_unused(old(table).slots@, MAX_MUTEXES as int) < 0 ==> r == Err::<Mutex, RtosError>(
                RtosError::MutexSlotsFull,
            ) && final(table).slots@ == old(table).slots@,
            first_unused(old(table).slots@, MAX_MUTEXES as int) >= 0 ==> ({
                let f = first_unused(old(table).slots@, MAX_MUTEXES as int);
                &&& r == Ok::<Mutex, RtosError>(Mutex(f as usize))
                &&& final(table).slots@ == old(table).slots@.update(
                    f,
                    MutexSlot { used: true, owner: None, ..old(table).slots@[f] },
                )
            }),
    {
        proof {
            lemma_first_unused(table.slots@, MAX_MUTEXES as int);
        }
        let mut i: usize = 0;
        while i < MAX_MUTEXES
            invariant
                i <= MAX_MUTEXES,
                table.wf(),
                table.slots@ == old(table).slots@,
                forall|j: int| 0 <= j < i ==> (#[trigger] table.slots@[j]).used,
            decreases MAX_MUTEXES - i,
        {
            let s = table.slots[i];
            if !s.used {
                proof {
                    lemma_first_unused(table.slots@, MAX_MUTEXES as int);
                    let f = first_unused(table.slots@, MAX_MUTEXES as int);
                    if f != i {
                        assert(!table.slots@[f].used);
                    }
                }
                table.slots.set(i, MutexSlot { used: true, owner: None, ..s });
                return Ok(Mutex(i));
            }
            i = i + 1;
        }
        Err(RtosError::MutexSlotsFull)
    }

    /// One attempt to lock. A free mutex is taken by the current task:
    /// `Ok(true)`. A held one blocks the current task on the mutex's event:
    /// `Ok(false)`, and the caller switches tasks and tries again.
    pub fn lock(&self, table: &mut MutexTable, k: &mut Kernel) -> (r: Result<bool>)
        requires
            old(table).wf(),
            old(k).wf(),
            self.0 < MAX_MUTEXES,
        ensures
            final(table).wf(),
            final(k).wf(),
            final(k).same_but_tasks(*old(k)),
            ({
                let s = old(table).slots@[self.0 as int];
                if s.locked {
                    &&& r == Ok::<bool, RtosError>(false)
                    &&& final(table).slots@ == old(table).slots@
                    &&& final(k).tasks@ == set_state(
                        old(k).tasks@,
                        old(k).current_task_id as int,
                        TaskState::Blocked(Event::Mutex(self.0)),
                    )
                } else {
                    &&& r == Ok::<bool, RtosError>(true)
                    &&& final(table).slots@ == old(table).slots@.update(
                        self.0 as int,
                        after_lock(s, old(k).current_task_id),
                    )
                    &&& final(k).tasks@ == old(k).tasks@
                }
            }),
    {
        let s = table.slots[self.0];
        let mut current = Scheduler::get_current_task(k);
        if s.locked {
            current.block(k, Event::Mutex(self.0));
            return Ok(false);
        }
        table.slots.set(self.0, MutexSlot { locked: true, owner: Some(current.0), ..s });
        Ok(true)
    }

    /// Unlocks the mutex and wakes every task blocked on it;
    /// `MutexNotOwned`, with nothing changed, unless the current task holds
    /// it.
    pub fn unlock(&self, table: &mut MutexTable, k: &mut Kernel) -> (r: Result<()>)
        requires
            old(table).wf(),
            old(k).wf(),
            self.0 < MAX_MUTEXES,
        ensures
            final(table).wf(),
            final(k).wf(),
            final(k).same_but_tasks(*old(k)),
            ({
                let s = old(table).slots@[self.0 as int];
                if held_by_current(s, *old(k)) {
                    &&& r is Ok
                    &&& final(table).slots@ == old(table).slots@.update(
                        self.0 as int,
                        after_unlock(s),
                    )
                    &&& final(k).tasks@ == wake_all(old(k).tasks@, Event::Mutex(self.0))
                } else {
                    &&& r == Err::<(), RtosError>(RtosError::MutexNotOwned)
                    &&& final(table).slots@ == old(table).slots@
                    &&& *final(k) == *old(k)
                }
            }),
    {
        let s = table.slots[self.0];
        let current = Scheduler::get_current_task(k);
        let owned = match s.owner {
            Some(o) => o == current.0,
            None => false,
        };
        if !owned {
            return Err(RtosError::MutexNotOwned);
        }
        table.slots.set(self.0, MutexSlot { locked: false, owner: None, ..s });
        Event::wake_task(k, Event::Mutex(self.0));
        Ok(())
    }

    /// One attempt to lock, giving a guard for the held mutex: `Ok(Some)`
    /// when the lock was taken, `Ok(None)` when the current task was blocked,
    /// as `lock` says.
    pub fn lock_guard(&self, table: &mut MutexTable, k: &mut Kernel) -> (r: Result<Option<MutexGuard>>)
        requires
            old(table).wf(),
            old(k).wf(),
            self.0 < MAX_MUTEXES,
        ensures
            final(table).wf(),
            final(k).wf(),
            final(k).same_but_tasks(*old(k)),
            ({
                let s = old(table).slots@[self.0 as int];
                if s.locked {
                    &&& r == Ok::<Option<MutexGuard>, RtosError>(None)
                    &&& final(table).slots@ == old(table).slots@
                    &&& final(k).tasks@ == set_state(
                        old(k).tasks@,
                        old(k).current_task_id as int,
                        TaskState::Blocked(Event::Mutex(self.0)),
                    )
                } else {
                    &&& r == Ok::<Option<MutexGuard>, RtosError>(Some(MutexGuard { mutex: *self }))
                    &&& final(table).slots@ == old(table).slots@.update(
                        self.0 as int,
                        after_lock(s, old(k).current_task_id),
                    )
                    &&& final(k).tasks@ == old(k).tasks@
                }
            }),
    {
        match self.lock(table, k) {
            Ok(true) => Ok(Some(MutexGuard { mutex: *self })),
            Ok(false) => Ok(None),
            Err(e) => Err(e),
        }
    }

    /// Runs `f` while holding the mutex, when it is free: locks, calls `f`,
    /// unlocks, and gives `Some` of `f`'s result. When the mutex is held,
    /// blocks the current task as `lock` does and gives `None` without
    /// calling `f`.
    pub fn with_lock<R, F: FnOnce() -> R>(&self, table: &mut MutexTable, k: &mut Kernel, f: F) -> (r: Result<Option<R>>)
        requires
            old(table).wf(),
            old(k).wf(),
            self.0 < MAX_MUTEXES,
            f.requires(()),
        ensures
            final(table).wf(),
            final(k).wf(),
            final(k).same_but_tasks(*old(k)),
            ({
                let s = old(table).slots@[self.0 as int];
                if s.locked {
                    &&& r matches Ok(None)
                    &&& final(table).slots@ == old(table).slots@
                    &&& final(k).tasks@ == set_state(
                        old(k).tasks@,
                        old(k).current_task_id as int,
                        TaskState::Blocked(Event::Mutex(self.0)),
                    )
                } else {
                    &&& r matches Ok(Some(v)) && f.ensures((), v)
                    &&& final(table).slots@ == old(table).slots@.update(
                        self.0 as int,
                        after_unlock(s),
                    )
                    &&& final(k).tasks@ == wake_all(old(k).tasks@, Event::Mutex(self.0))
                }
            }),
    {
        match self.lock(table, k) {
            Ok(true) => {
                let v = f();
                let _ = self.unlock(table, k);
                Ok(Some(v))
            },
            Ok(false) => Ok(None),
            Err(e) => Err(e),
        }
    }
}

/// A held mutex, released by `unlock`.
#[derive(Debug, PartialEq, Eq, Structural)]
pub struct MutexGuard {
    pub mutex: Mutex,
}

impl MutexGuard {
    /// The mutex the guard holds.
    pub fn mutex(&self) -> (r: &Mutex)
        ensures
            *r == self.mutex,
    {
        &self.mutex
    }

    /// Releases the mutex, as `Mutex::unlock` does.
    pub fn unlock(self, table: &mut MutexTable, k: &mut Kernel) -> (r: Result<()>)
        requires
            old(table).wf(),
            old(k).wf(),
            self.mutex.0 < MAX_MUTEXES,
        ensures
            final(table).wf(),
            final(k).wf(),
            final(k).same_but_tasks(*old(k)),
            ({
                let s = old(table).slots@[self.mutex.0 as int];
                if held_by_current(s, *old(k)) {
                    &&& r is Ok
                    &&& final(table).slots@ == old(table).slots@.update(
                        self.mutex.0 as int,
                        after_unlock(s),
                    )
                    &&& final(k).tasks@ == wake_all(old(k).tasks@, Event::Mutex(self.mutex.0))
                } else {
                    &&& r == Err::<(), RtosError>(RtosError::MutexNotOwned)
                    &&& final(table).slots@ == old(table).slots@
                    &&& *final(k) == *old(k)
                }
            }),
    {
        self.mutex.unlock(table, k)
    }
}

} // verus!
