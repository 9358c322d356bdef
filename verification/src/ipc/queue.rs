use vstd::prelude::*;
use crate::config::{MAX_MQS, MAX_TASKS};
use crate::error::{Result, RtosError};
use crate::kernel::Kernel;
use crate::kernel::scheduler::{Scheduler, set_state};
use crate::kernel::task::{TaskState, Tcb};
use crate::sync::event::Event;
use crate::sync::signal::WaiterList;

verus! {

/// The slot `x` of a ring of `n` slots, for `x < 2 * n`.
pub open spec fn wrap_n(x: int, n: int) -> int {
    if x < n { x } else { x - n }
}

/// Position `i` of a ring of `n` slots whose front is at `head`.
pub open spec fn ring_slot(head: int, i: int, n: int) -> int {
    wrap_n(head + i, n)
}

/// The position in `ws` of the first task blocked on `e`, or -1.
pub open spec fn first_blocked(ws: Seq<usize>, tasks: Seq<Tcb>, e: Event) -> int
    decreases ws.len(),
{
    if ws.len() == 0 {
        -1
    } else if ws[0] < MAX_TASKS && tasks[ws[0] as int].state == TaskState::Blocked(e) {
        0
    } else {
        let r = first_blocked(ws.drop_first(), tasks, e);
        if r < 0 {
            -1
        } else {
            r + 1
        }
    }
}

/// What `first_blocked` means.
pub proof fn lemma_first_blocked(ws: Seq<usize>, tasks: Seq<Tcb>, e: Event)
    ensures
        first_blocked(ws, tasks, e) >= 0 ==> ({
            let f = first_blocked(ws, tasks, e);
            &&& f < ws.len()
            &&& ws[f] < MAX_TASKS
            &&& tasks[ws[f] as int].state == TaskState::Blocked(e)
        }),
        first_blocked(ws, tasks, e) < 0 ==> first_blocked(ws, tasks, e) == -1,
    decreases ws.len(),
{
    if ws.len() > 0 {
        lemma_first_blocked(ws.drop_first(), tasks, e);
    }
}

/// Waking the next waiter of `ws` on `e`: waiters are dropped, oldest
/// first, until one blocked on `e` is found and made ready.
pub open spec fn wake_next_effect(ws: Seq<usize>, k0: Kernel, ws1: Seq<usize>, k1: Kernel, e: Event) -> bool {
    let f = first_blocked(ws, k0.tasks@, e);
    &&& k1.same_but_tasks(k0)
    &&& f >= 0 ==> ws1 == ws.skip(f + 1) && k1.tasks@ == set_state(k0.tasks@, ws[f] as int, TaskState::Ready)
    &&& f < 0 ==> ws1 == Seq::<usize>::empty() && k1.tasks@ == k0.tasks@
}

/// The first free message queue id in `0..n`, or -1.
pub open spec fn first_free_slot(slots: Seq<bool>, n: int) -> int
    decreases n,
{
    if n <= 0 {
        -1
    } else if first_free_slot(slots, n - 1) >= 0 {
        first_free_slot(slots, n - 1)
    } else if !slots[n - 1] {
        n - 1
    } else {
        -1
    }
}

/// What `first_free_slot` means.
pub proof fn lemma_first_free_slot(slots: Seq<bool>, n: int)
    requires
        0 <= n <= slots.len(),
    ensures
        first_free_slot(slots, n) < n,
        first_free_slot(slots, n) >= 0 ==> !slots[first_free_slot(slots, n)] && forall|j: int|
            0 <= j < first_free_slot(slots, n) ==> #[trigger] slots[j],
        first_free_slot(slots, n) < 0 ==> first_free_slot(slots, n) == -1 && forall|j: int|
            0 <= j < n ==> #[trigger] slots[j],
    decreases n,
{
    if n > 0 {
        lemma_first_free_slot(slots, n - 1);
    }
}

/// A bounded FIFO message queue of `N` items, with the tasks that wait to
/// send and to receive.
pub struct Mq<T, const N: usize> {
    buffer: Vec<Option<T>>,
    head: usize,
    tail: usize,
    count: usize,
    send_waiters: WaiterList,
    recv_waiters: WaiterList,
    id: usize,
}

impl<T: Copy, const N: usize> Mq<T, N> {
    /// The queued items, oldest first.
    pub closed spec fn view(&self) -> Seq<T> {
        Seq::new(self.count as nat, |i: int| self.buffer@[ring_slot(self.head as int, i, N as int)].unwrap())
    }

    /// The tasks waiting to send, oldest first.
    pub closed spec fn senders(&self) -> Seq<usize> {
        self.send_waiters@
    }

    /// The tasks waiting to receive, oldest first.
    pub closed spec fn receivers(&self) -> Seq<usize> {
        self.recv_waiters@
    }

    /// The queue's id.
    pub closed spec fn spec_id(&self) -> usize {
        self.id
    }

    /// The ring is well formed and its live slots hold items.
    pub closed spec fn wf(&self) -> bool {
        &&& self.buffer@.len() == N
        &&& self.count <= N
        &&& (N > 0 ==> self.head < N && self.tail < N)
        &&& (N == 0 ==> self.head == 0 && self.tail == 0)
        &&& (self.tail as int == wrap_n(self.head + self.count, N as int) || (self.count == N
            && self.tail == self.head))
        &&& forall|i: int| 0 <= i < self.count ==> #[trigger] self.buffer@[ring_slot(self.head as int, i, N as int)] is Some
        &&& self.send_waiters.wf()
        &&& self.recv_waiters.wf()
        &&& self.id < MAX_MQS
    }

    /// A queue never holds more than its capacity of `N` items.
    pub proof fn law_len_at_most_capacity(&self)
        requires
            self.wf(),
        ensures
            self@.len() <= N,
    {
    }

    /// Takes the first free message queue id for an empty queue; `QueueFull`
    /// when every id is taken.
    pub fn new(k: &mut Kernel) -> (r: Result<Mq<T, N>>)
        requires
            old(k).wf(),
        ensures
            final(k).wf(),
            final(k).same_but_mq_slots(*old(k)),
            first_free_slot(old(k).mq_slots@, MAX_MQS as int) < 0 ==> r is Err && r->Err_0
                == RtosError::QueueFull && final(k).mq_slots@ == old(k).mq_slots@,
            first_free_slot(old(k).mq_slots@, MAX_MQS as int) >= 0 ==> r is Ok && ({
                let q = r->Ok_0;
                let f = first_free_slot(old(k).mq_slots@, MAX_MQS as int);
                &&& q.wf()
                &&& q@ == Seq::<T>::empty()
                &&& q.senders() == Seq::<usize>::empty()
                &&& q.receivers() == Seq::<usize>::empty()
                &&& q.spec_id() == f
                &&& final(k).mq_slots@ == old(k).mq_slots@.update(f, true)
            }),
    {
        proof {
            lemma_first_free_slot(k.mq_slots@, MAX_MQS as int);
        }
        let mut id: Option<usize> = None;
        let mut i: usize = 0;
        while i < MAX_MQS
            invariant_except_break
                i <= MAX_MQS,
                k.wf(),
                *k == *old(k),
                id is None,
                forall|j: int| 0 <= j < i ==> #[trigger] k.mq_slots@[j],
            ensures
                k.wf(),
                k.same_but_mq_slots(*old(k)),
                id is None ==> *k == *old(k) && forall|j: int| 0 <= j < MAX_MQS ==> #[trigger] k.mq_slots@[j],
                id is Some ==> id.unwrap() == first_free_slot(old(k).mq_slots@, MAX_MQS as int)
                    && k.mq_slots@ == old(k).mq_slots@.update(id.unwrap() as int, true),
            decreases MAX_MQS - i,
        {
            if !k.mq_slots[i] {
                proof {
                    lemma_first_free_slot(k.mq_slots@, MAX_MQS as int);
                    let f = first_free_slot(k.mq_slots@, MAX_MQS as int);
                    if f != i {
                        assert(!k.mq_slots@[f]);
                    }
                }
                k.mq_slots.set(i, true);
                id = Some(i);
                break;
            }
            i = i + 1;
        }
        let id = match id {
            Some(x) => x,
            None => {
                return Err(RtosError::QueueFull);
            },
        };
        let mut buffer: Vec<Option<T>> = Vec::new();
        let mut j: usize = 0;
        while j < N
            invariant
                j <= N,
                buffer@.len() == j,
            decreases N - j,
        {
            buffer.push(None);
            j = j + 1;
        }
        let q = Mq {
            buffer,
            head: 0,
            tail: 0,
            count: 0,
            send_waiters: WaiterList::new(),
            recv_waiters: WaiterList::new(),
            id,
        };
        assert(q@ =~= Seq::<T>::empty());
        Ok(q)
    }

    /// Frees every message queue id.
    pub fn init(k: &mut Kernel)
        requires
            old(k).wf(),
        ensures
            final(k).wf(),
            final(k).same_but_mq_slots(*old(k)),
            forall|i: int| 0 <= i < MAX_MQS ==> !(#[trigger] final(k).mq_slots@[i]),
    {
        let mut i: usize = 0;
        while i < MAX_MQS
            invariant
                i <= MAX_MQS,
                k.wf(),
                k.same_but_mq_slots(*old(k)),
                forall|j: int| 0 <= j < i ==> !(#[trigger] k.mq_slots@[j]),
            decreases MAX_MQS - i,
        {
            k.mq_slots.set(i, false);
            i = i + 1;
        }
    }

    /// Gives the queue up and frees its id for a later `new`.
    pub fn release(self, k: &mut Kernel)
        requires
            old(k).wf(),
            self.wf(),
        ensures
            final(k).wf(),
            final(k).same_but_mq_slots(*old(k)),
            final(k).mq_slots@ == old(k).mq_slots@.update(self.spec_id() as int, false),
    {
        k.mq_slots.set(self.id, false);
    }

    /// The queue's id.
    pub fn id(&self) -> (r: usize)
        ensures
            r == self.spec_id(),
    {
        self.id
    }

    /// The number of queued items.
    pub fn len(&self) -> (r: usize)
        requires
            self.wf(),
        ensures
            r == self@.len(),
    {
        self.count
    }

    /// Whether no item is queued.
    pub fn is_empty(&self) -> (r: bool)
        requires
            self.wf(),
        ensures
            r <==> self@.len() == 0,
    {
        self.count == 0
    }

    /// Whether the queue holds `N` items.
    pub fn is_full(&self) -> (r: bool)
        requires
            self.wf(),
        ensures
            r <==> self@.len() == N,
    {
        self.count == N
    }

    /// Wakes the oldest receiver that is blocked on this queue, dropping the
    /// waiters before it.
    fn wake_next_receiver(&mut self, k: &mut Kernel) -> (r: bool)
        requires
            old(self).wf(),
            old(k).wf(),
        ensures
            final(self).wf(),
            final(k).wf(),
            final(self)@ == old(self)@,
            final(self).senders() == old(self).senders(),
            final(self).spec_id() == old(self).spec_id(),
            r <==> first_blocked(old(self).receivers(), old(k).tasks@, Event::Mq(old(self).spec_id())) >= 0,
            wake_next_effect(old(self).receivers(), *old(k), final(self).receivers(), *final(k), Event::Mq(old(self).spec_id())),
    {
        let e = Event::Mq(self.id);
        let ghost ws = self.recv_waiters@;
        let ghost n: int = 0;
        proof {
            lemma_first_blocked(ws, k.tasks@, e);
            assert(ws.skip(0) =~= ws);
        }
        loop
            invariant
                self.wf(),
                k.wf(),
                k.same_but_tasks(*old(k)),
                k.tasks@ == old(k).tasks@,
                self@ == old(self)@,
                self.senders() == old(self).senders(),
                self.id == old(self).id,
                e == Event::Mq(self.id),
                ws == old(self).receivers(),
                0 <= n <= ws.len(),
                self.recv_waiters@ == ws.skip(n),
                first_blocked(ws, k.tasks@, e) < 0 || first_blocked(ws, k.tasks@, e) >= n,
            decreases ws.len() - n,
        {
            proof {
                lemma_first_blocked_skip(ws, k.tasks@, e, n);
            }
            match self.recv_waiters.pop_front() {
                Some(task_id) => {
                    assert(task_id == ws[n]);
                    if Event::wake_task_by_id_if(k, task_id, e) {
                        assert(self.recv_waiters@ =~= ws.skip(n + 1));
                        return true;
                    }
                    proof {
                        assert(self.recv_waiters@ =~= ws.skip(n + 1));
                        n = n + 1;
                    }
                },
                None => {
                    proof {
                        lemma_first_blocked(ws, k.tasks@, e);
                        assert(ws.skip(n) =~= Seq::<usize>::empty());
                    }
                    return false;
                },
            }
        }
    }

    /// Wakes the oldest sender that is blocked on this queue, dropping the
    /// waiters before it.
    fn wake_next_sender(&mut self, k: &mut Kernel) -> (r: bool)
        requires
            old(self).wf(),
            old(k).wf(),
        ensures
            final(self).wf(),
            final(k).wf(),
            final(self)@ == old(self)@,
            final(self).receivers() == old(self).receivers(),
            final(self).spec_id() == old(self).spec_id(),
            r <==> first_blocked(old(self).senders(), old(k).tasks@, Event::Mq(old(self).spec_id())) >= 0,
            wake_next_effect(old(self).senders(), *old(k), final(self).senders(), *final(k), Event::Mq(old(self).spec_id())),
    {
        let e = Event::Mq(self.id);
        let ghost ws = self.send_waiters@;
        let ghost n: int = 0;
        proof {
            lemma_first_blocked(ws, k.tasks@, e);
            assert(ws.skip(0) =~= ws);
        }
        loop
            invariant
                self.wf(),
                k.wf(),
                k.same_but_tasks(*old(k)),
                k.tasks@ == old(k).tasks@,
                self@ == old(self)@,
                self.receivers() == old(self).receivers(),
                self.id == old(self).id,
                e == Event::Mq(self.id),
                ws == old(self).senders(),
                0 <= n <= ws.len(),
                self.send_waiters@ == ws.skip(n),
                first_blocked(ws, k.tasks@, e) < 0 || first_blocked(ws, k.tasks@, e) >= n,
            decreases ws.len() - n,
        {
            proof {
                lemma_first_blocked_skip(ws, k.tasks@, e, n);
            }
            match self.send_waiters.pop_front() {
                Some(task_id) => {
                    assert(task_id == ws[n]);
                    if Event::wake_task_by_id_if(k, task_id, e) {
                        assert(self.send_waiters@ =~= ws.skip(n + 1));
                        return true;
                    }
                    proof {
                        assert(self.send_waiters@ =~= ws.skip(n + 1));
                        n = n + 1;
                    }
                },
                None => {
                    proof {
                        lemma_first_blocked(ws, k.tasks@, e);
                        assert(ws.skip(n) =~= Seq::<usize>::empty());
                    }
                    return false;
                },
            }
        }
    }

    /// Stores `data` at the back and wakes the next waiting receiver.
    fn push_inner(&mut self, k: &mut Kernel, data: T)
        requires
            old(self).wf(),
            old(k).wf(),
            old(self)@.len() < N,
        ensures
            final(self).wf(),
            final(k).wf(),
            final(self)@ == old(self)@.push(data),
            final(self).senders() == old(self).senders(),
            final(self).spec_id() == old(self).spec_id(),
            wake_next_effect(old(self).receivers(), *old(k), final(self).receivers(), *final(k), Event::Mq(old(self).spec_id())),
    {
        let ghost old_view = self@;
        self.buffer.set(self.tail, Some(data));
        self.count = self.count + 1;
        self.tail = if self.tail + 1 == N { 0 } else { self.tail + 1 };
        assert(self@ =~= old_view.push(data));
        self.wake_next_receiver(k);
    }

    /// Takes the item at the front and wakes the next waiting sender.
    fn pop_inner(&mut self, k: &mut Kernel) -> (r: T)
        requires
            old(self).wf(),
            old(k).wf(),
            old(self)@.len() > 0,
        ensures
            final(self).wf(),
            final(k).wf(),
            r == old(self)@[0],
            final(self)@ == old(self)@.drop_first(),
            final(self).receivers() == old(self).receivers(),
            final(self).spec_id() == old(self).spec_id(),
            wake_next_effect(old(self).senders(), *old(k), final(self).senders(), *final(k), Event::Mq(old(self).spec_id())),
    {
        let ghost old_view = self@;
        assert(self.buffer@[ring_slot(self.head as int, 0, N as int)] is Some);
        let ret = self.buffer[self.head].unwrap();
        let ghost h0 = self.head;
        self.count = self.count - 1;
        self.head = if self.head + 1 == N { 0 } else { self.head + 1 };
        assert forall|i: int| 0 <= i < self.count implies #[trigger] self.buffer@[ring_slot(self.head as int, i, N as int)] is Some by {
            assert(ring_slot(self.head as int, i, N as int) == ring_slot(h0 as int, i + 1, N as int));
        }
        assert(self@ =~= old_view.drop_first());
        self.wake_next_sender(k);
        ret
    }

    /// Stores `data` at the back and wakes the next waiting receiver;
    /// `false`, with nothing changed, when the queue is full.
    pub fn push(&mut self, k: &mut Kernel, data: T) -> (r: bool)
        requires
            old(self).wf(),
            old(k).wf(),
        ensures
            final(self).wf(),
            final(k).wf(),
            r <==> old(self)@.len() < N,
            !r ==> *final(self) == *old(self) && *final(k) == *old(k),
            r ==> final(self)@ == old(self)@.push(data) && final(self).senders() == old(self).senders()
                && final(self).spec_id() == old(self).spec_id() && wake_next_effect(
                old(self).receivers(),
                *old(k),
                final(self).receivers(),
                *final(k),
                Event::Mq(old(self).spec_id()),
            ),
    {
        if self.count == N {
            return false;
        }
        self.push_inner(k, data);
        true
    }

    /// Takes the item at the front and wakes the next waiting sender;
    /// `None`, with nothing changed, when the queue is empty.
    pub fn pop(&mut self, k: &mut Kernel) -> (r: Option<T>)
        requires
            old(self).wf(),
            old(k).wf(),
        ensures
            final(self).wf(),
            final(k).wf(),
            r is Some <==> old(self)@.len() > 0,
            r is None ==> *final(self) == *old(self) && *final(k) == *old(k),
            r is Some ==> r.unwrap() == old(self)@[0] && final(self)@ == old(self)@.drop_first()
                && final(self).receivers() == old(self).receivers() && final(self).spec_id()
                == old(self).spec_id() && wake_next_effect(
                old(self).senders(),
                *old(k),
                final(self).senders(),
                *final(k),
                Event::Mq(old(self).spec_id()),
            ),
    {
        if self.count == 0 {
            return None;
        }
        Some(self.pop_inner(k))
    }

    /// One attempt of a blocking send. With room, stores `data` as `push`
    /// does and returns `Ok(true)`. Otherwise records the current task as
    /// waiting to send and blocks it on this queue, returning `Ok(false)`:
    /// the caller then switches tasks and tries again. `WaiterQueueFull`,
    /// with nothing changed, when the waiting list is full.
    pub fn push_wait(&mut self, k: &mut Kernel, data: T) -> (r: Result<bool>)
        requires
            old(self).wf(),
            old(k).wf(),
        ensures
            final(self).wf(),
            final(k).wf(),
            final(self).spec_id() == old(self).spec_id(),
            old(self)@.len() < N ==> r == Ok::<bool, RtosError>(true) && final(self)@ == old(self)@.push(data)
                && final(self).senders() == old(self).senders() && wake_next_effect(
                old(self).receivers(),
                *old(k),
                final(self).receivers(),
                *final(k),
                Event::Mq(old(self).spec_id()),
            ),
            old(self)@.len() >= N ==> final(self)@ == old(self)@ && final(self).receivers()
                == old(self).receivers() && ({
                let cur = old(k).current_task_id as int;
                let tid = old(k).tasks@[cur].taskid;
                let ws = old(self).senders();
                if !ws.contains(tid) && ws.len() >= MAX_TASKS {
                    r is Err && r->Err_0 == RtosError::WaiterQueueFull && *final(k) == *old(k)
                        && final(self).senders() == ws
                } else {
                    &&& r == Ok::<bool, RtosError>(false)
                    &&& final(self).senders() == if ws.contains(tid) { ws } else { ws.push(tid) }
                    &&& final(k).same_but_tasks(*old(k))
                    &&& final(k).tasks@ == set_state(old(k).tasks@, cur, TaskState::Blocked(Event::Mq(old(self).spec_id())))
                }
            }),
    {
        if self.count < N {
            self.push_inner(k, data);
            return Ok(true);
        }
        let mut current = Scheduler::get_current_task(k);
        let tid = current.get_taskid(k);
        self.register_sender_waiter(tid)?;
        current.block(k, Event::Mq(self.id));
        Ok(false)
    }

    /// One attempt of a blocking receive. With an item, takes it as `pop`
    /// does and returns `Ok(Some(item))`. Otherwise records the current task
    /// as waiting to receive and blocks it on this queue, returning
    /// `Ok(None)`: the caller then switches tasks and tries again.
    /// `WaiterQueueFull`, with nothing changed, when the waiting list is full.
    pub fn pop_wait(&mut self, k: &mut Kernel) -> (r: Result<Option<T>>)
        requires
            old(self).wf(),
            old(k).wf(),
        ensures
            final(self).wf(),
            final(k).wf(),
            final(self).spec_id() == old(self).spec_id(),
            old(self)@.len() > 0 ==> r == Ok::<Option<T>, RtosError>(Some(old(self)@[0]))
                && final(self)@ == old(self)@.drop_first() && final(self).receivers()
                == old(self).receivers() && wake_next_effect(
                old(self).senders(),
                *old(k),
                final(self).senders(),
                *final(k),
                Event::Mq(old(self).spec_id()),
            ),
            old(self)@.len() == 0 ==> final(self)@ == old(self)@ && final(self).senders()
                == old(self).senders() && ({
                let cur = old(k).current_task_id as int;
                let tid = old(k).tasks@[cur].taskid;
                let ws = old(self).receivers();
                if !ws.contains(tid) && ws.len() >= MAX_TASKS {
                    r is Err && r->Err_0 == RtosError::WaiterQueueFull && *final(k) == *old(k)
                        && final(self).receivers() == ws
                } else {
                    &&& r == Ok::<Option<T>, RtosError>(None)
                    &&& final(self).receivers() == if ws.contains(tid) { ws } else { ws.push(tid) }
                    &&& final(k).same_but_tasks(*old(k))
                    &&& final(k).tasks@ == set_state(old(k).tasks@, cur, TaskState::Blocked(Event::Mq(old(self).spec_id())))
                }
            }),
    {
        if self.count > 0 {
            let v = self.pop_inner(k);
            return Ok(Some(v));
        }
        let mut current = Scheduler::get_current_task(k);
        let tid = current.get_taskid(k);
        self.register_receiver_waiter(tid)?;
        current.block(k, Event::Mq(self.id));
        Ok(None)
    }

    /// Adds `task_id` to `waiters` unless it is there; `WaiterQueueFull`
    /// when the list is full.
    fn register_waiter(waiters: &mut WaiterList, task_id: usize) -> (r: Result<()>)
        requires
            old(waiters).wf(),
        ensures
            final(waiters).wf(),
            old(waiters)@.contains(task_id) ==> r is Ok && final(waiters)@ == old(waiters)@,
            !old(waiters)@.contains(task_id) && old(waiters)@.len() < MAX_TASKS ==> r is Ok
                && final(waiters)@ == old(waiters)@.push(task_id),
            !old(waiters)@.contains(task_id) && old(waiters)@.len() >= MAX_TASKS ==> r is Err
                && r->Err_0 == RtosError::WaiterQueueFull && final(waiters)@ == old(waiters)@,
    {
        if waiters.contains(task_id) {
            return Ok(());
        }
        if waiters.push(task_id) {
            Ok(())
        } else {
            Err(RtosError::WaiterQueueFull)
        }
    }

    /// Records `task_id` as waiting to send, unless it does already;
    /// `WaiterQueueFull` when the list is full.
    pub fn register_sender_waiter(&mut self, task_id: usize) -> (r: Result<()>)
        requires
            old(self).wf(),
        ensures
            final(self).wf(),
            final(self)@ == old(self)@,
            final(self).receivers() == old(self).receivers(),
            final(self).spec_id() == old(self).spec_id(),
            old(self).senders().contains(task_id) ==> r is Ok && final(self).senders() == old(self).senders(),
            !old(self).senders().contains(task_id) && old(self).senders().len() < MAX_TASKS ==> r is Ok
                && final(self).senders() == old(self).senders().push(task_id),
            !old(self).senders().contains(task_id) && old(self).senders().len() >= MAX_TASKS ==> r is Err
                && r->Err_0 == RtosError::WaiterQueueFull && final(self).senders() == old(self).senders(),
    {
        Self::register_waiter(&mut self.send_waiters, task_id)
    }

    /// Records `task_id` as waiting to receive, unless it does already;
    /// `WaiterQueueFull` when the list is full.
    pub fn register_receiver_waiter(&mut self, task_id: usize) -> (r: Result<()>)
        requires
            old(self).wf(),
        ensures
            final(self).wf(),
            final(self)@ == old(self)@,
            final(self).senders() == old(self).senders(),
            final(self).spec_id() == old(self).spec_id(),
            old(self).receivers().contains(task_id) ==> r is Ok && final(self).receivers() == old(self).receivers(),
            !old(self).receivers().contains(task_id) && old(self).receivers().len() < MAX_TASKS ==> r is Ok
                && final(self).receivers() == old(self).receivers().push(task_id),
            !old(self).receivers().contains(task_id) && old(self).receivers().len() >= MAX_TASKS ==> r is Err
                && r->Err_0 == RtosError::WaiterQueueFull && final(self).receivers() == old(self).receivers(),
    {
        Self::register_waiter(&mut self.recv_waiters, task_id)
    }
}

/// Past position `n` of `ws`, `first_blocked` agrees with the suffix.
proof fn lemma_first_blocked_skip(ws: Seq<usize>, tasks: Seq<Tcb>, e: Event, n: int)
    requires
        0 <= n <= ws.len(),
        first_blocked(ws, tasks, e) < 0 || first_blocked(ws, tasks, e) >= n,
    ensures
        first_blocked(ws.skip(n), tasks, e) < 0 ==> first_blocked(ws, tasks, e) < 0,
        first_blocked(ws.skip(n), tasks, e) >= 0 ==> first_blocked(ws, tasks, e) == first_blocked(ws.skip(n), tasks, e) + n,
        n < ws.len() ==> (ws.skip(n)[0] < MAX_TASKS && tasks[ws.skip(n)[0] as int].state == TaskState::Blocked(e) <==> first_blocked(ws, tasks, e) == n),
    decreases n,
{
    if n > 0 {
        let t = ws.drop_first();
        lemma_first_blocked(ws, tasks, e);
        if ws[0] < MAX_TASKS && tasks[ws[0] as int].state == TaskState::Blocked(e) {
            assert(first_blocked(ws, tasks, e) == 0);
        } else {
            assert(t.skip(n - 1) =~= ws.skip(n));
            lemma_first_blocked_skip(t, tasks, e, n - 1);
        }
    } else {
        assert(ws.skip(0) =~= ws);
    }
}

/// Serving the waiters of a queue wakes one task: the oldest waiter still
/// blocked on the queue becomes ready, and no other task changes; when no
/// waiter is blocked on it, no task changes.
pub proof fn law_wake_next_wakes_one(ws: Seq<usize>, k0: Kernel, ws1: Seq<usize>, k1: Kernel, e: Event)
    requires
        k0.wf(),
        wake_next_effect(ws, k0, ws1, k1, e),
    ensures
        forall|i: int, j: int|
            0 <= i < MAX_TASKS && 0 <= j < MAX_TASKS && #[trigger] k1.tasks@[i] != k0.tasks@[i] && #[trigger] k1.tasks@[j]
                != k0.tasks@[j] ==> i == j,
        first_blocked(ws, k0.tasks@, e) >= 0 ==> ({
            let w = ws[first_blocked(ws, k0.tasks@, e)] as int;
            &&& k0.tasks@[w].state == TaskState::Blocked(e)
            &&& k1.tasks@[w].state == TaskState::Ready
        }),
        first_blocked(ws, k0.tasks@, e) < 0 ==> k1.tasks@ == k0.tasks@,
{
    lemma_first_blocked(ws, k0.tasks@, e);
}

} // verus!
