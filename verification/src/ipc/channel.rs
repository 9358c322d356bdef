//! Message queues addressed by handles.
//!
//! Each message carries a type key chosen by the sender; a receive names the
//! key it expects and is refused with `TypeMismatch`, leaving the message in
//! place, when the oldest message has another key. A send to a full queue
//! and a receive from an empty one block the current task on the queue's
//! event and report the condition; the caller switches tasks and retries.
use vstd::prelude::*;
use std::collections::VecDeque;
use crate::kernel::Kernel;
use crate::kernel::scheduler::set_state;
use crate::kernel::task::{Task, TaskState};
use crate::sync::event::{Event, wake_all};

verus! {

/// A handle on a message queue.
#[derive(Debug, Clone, Copy, PartialEq, Eq, Structural)]
pub struct IpcHandle(pub usize);

/// Errors of the queue operations.
#[derive(Debug, Clone, Copy, PartialEq, Eq, Structural)]
pub enum IpcError {
    InvalidHandle,
    QueueFull,
    QueueEmpty,
    TypeMismatch,
}

/// A message with the key of its type.
pub struct Message<M> {
    pub type_key: u64,
    pub data: M,
}

/// A bounded queue of messages with the tasks waiting on it.
pub struct MessageQueue<M> {
    pub queue: VecDeque<Message<M>>,
    pub capacity: usize,
    pub waiting_senders: Vec<Task>,
    pub waiting_receivers: Vec<Task>,
}

impl<M> MessageQueue<M> {
    /// An empty queue for `capacity` messages.
    pub fn new(capacity: usize) -> (r: Self)
        ensures
            r.queue@.len() == 0,
            r.capacity == capacity,
            r.waiting_senders@.len() == 0,
            r.waiting_receivers@.len() == 0,
    {
        MessageQueue {
            queue: VecDeque::new(),
            capacity,
            waiting_senders: Vec::new(),
            waiting_receivers: Vec::new(),
        }
    }

    /// Whether the queue holds `capacity` messages or more.
    pub fn is_full(&self) -> (r: bool)
        ensures
            r <==> self.queue@.len() >= self.capacity,
    {
        self.queue.len() >= self.capacity
    }

    /// Whether the queue holds no message.
    pub fn is_empty(&self) -> (r: bool)
        ensures
            r <==> self.queue@.len() == 0,
    {
        self.queue.len() == 0
    }
}

/// The queue under handle `h` in `queues`, if there is one.
pub open spec fn queue_at<M>(queues: Seq<Option<MessageQueue<M>>>, h: int) -> Option<MessageQueue<M>> {
    if 0 <= h < queues.len() {
        queues[h]
    } else {
        None
    }
}

/// The task table after the current task was blocked on the event of queue `h`.
pub open spec fn blocked_on_queue(k0: Kernel, k1: Kernel, h: usize) -> bool {
    &&& k1.same_but_tasks(k0)
    &&& k1.tasks@ == set_state(k0.tasks@, k0.current_task_id as int, TaskState::Blocked(Event::Mq(h)))
}

/// The task table after the waiters `w0` of queue `h` were served: when
/// there was one, the last is dropped from the list and every task blocked
/// on the queue's event is made ready; otherwise nothing changes.
pub open spec fn waiters_served(w0: Seq<Task>, w1: Seq<Task>, k0: Kernel, k1: Kernel, h: usize) -> bool {
    &&& k1.same_but_tasks(k0)
    &&& w0.len() > 0 ==> w1 == w0.drop_last() && k1.tasks@ == wake_all(k0.tasks@, Event::Mq(h))
    &&& w0.len() == 0 ==> w1 == w0 && k1.tasks@ == k0.tasks@
}

/// What a send does to the queue it addresses: on a full queue `QueueFull`
/// with the messages unchanged, otherwise success with one message more;
/// the capacity stays.
pub open spec fn send_outcome<M>(q0: MessageQueue<M>, q1: MessageQueue<M>, r: Result<(), IpcError>) -> bool {
    &&& q1.capacity == q0.capacity
    &&& if q0.queue@.len() >= q0.capacity {
        r == Err::<(), IpcError>(IpcError::QueueFull) && q1.queue@.len() == q0.queue@.len()
    } else {
        r is Ok && q1.queue@.len() == q0.queue@.len() + 1
    }
}

/// The message queues, indexed by handle; handles are given out from 1 on.
pub struct Ipc<M> {
    pub queues: Vec<Option<MessageQueue<M>>>,
    pub next_handle: usize,
}

impl<M> Ipc<M> {
    /// Every live queue sits under a handle from 1 up to, but not including,
    /// the next handle to be given out.
    pub open spec fn wf(&self) -> bool {
        &&& 1 <= self.next_handle
        &&& self.queues@.len() <= self.next_handle
        &&& forall|h: int| #[trigger] queue_at(self.queues@, h) is Some ==> 1 <= h < self.next_handle
    }

    /// A change that kills queues but makes none live, moves no handle and
    /// keeps the table's length keeps the invariant.
    proof fn lemma_fewer_live_keeps_wf(i0: &Self, i1: &Self)
        requires
            i0.wf(),
            i1.next_handle == i0.next_handle,
            i1.queues@.len() == i0.queues@.len(),
            forall|h: int| #[trigger] queue_at(i1.queues@, h) is Some ==> queue_at(i0.queues@, h) is Some,
        ensures
            i1.wf(),
    {
    }

    /// No queues; the first handle will be 1.
    pub fn new() -> (r: Self)
        ensures
            r.wf(),
            r.queues@.len() == 0,
            r.next_handle == 1,
    {
        Ipc { queues: Vec::new(), next_handle: 1 }
    }

    /// Creates an empty queue for `capacity` messages under the next handle,
    /// which no queue has had before: it is at least 1, above every handle
    /// given out so far, and the next handle moves past it.
    pub fn create_queue(&mut self, capacity: usize) -> (r: IpcHandle)
        requires
            old(self).wf(),
            old(self).next_handle < usize::MAX,
        ensures
            final(self).wf(),
            r.0 >= 1,
            queue_at(old(self).queues@, r.0 as int) is None,
            forall|h: int| #[trigger] queue_at(old(self).queues@, h) is Some ==> h < r.0,
            r.0 == old(self).next_handle,
            final(self).next_handle == old(self).next_handle + 1,
            queue_at(final(self).queues@, r.0 as int) matches Some(q) && q.queue@.len() == 0 && q.capacity
                == capacity && q.waiting_senders@.len() == 0 && q.waiting_receivers@.len() == 0,
            forall|h: int| h != r.0 ==> #[trigger] queue_at(final(self).queues@, h) == queue_at(old(self).queues@, h),
    {
        let handle_id = self.next_handle;
        self.next_handle = self.next_handle + 1;
        let ghost q0 = self.queues@;
        while self.queues.len() <= handle_id
            invariant
                self.next_handle == handle_id + 1,
                q0.len() <= handle_id,
                self.queues@.len() >= q0.len(),
                self.queues@.len() <= handle_id + 1,
                forall|i: int| 0 <= i < q0.len() ==> #[trigger] self.queues@[i] == q0[i],
                forall|i: int| q0.len() <= i < self.queues@.len() ==> #[trigger] self.queues@[i] is None,
            decreases handle_id + 1 - self.queues@.len(),
        {
            self.queues.push(None);
        }
        self.queues.set(handle_id, Some(MessageQueue::new(capacity)));
        assert forall|h: int| #[trigger] queue_at(self.queues@, h) is Some implies 1 <= h < self.next_handle by {
            if h != handle_id && h < q0.len() {
                assert(queue_at(q0, h) is Some);
            }
        }
        IpcHandle(handle_id)
    }

    /// Sends `data` with key `type_key` to queue `handle`. `InvalidHandle`
    /// when there is no such queue. When the queue is full, the current task
    /// is recorded as waiting to send and blocked on the queue's event, and
    /// `QueueFull` is returned. Otherwise the message is appended and, when a
    /// receiver was waiting, the waiters are served.
    pub fn send(&mut self, k: &mut Kernel, handle: IpcHandle, type_key: u64, data: M) -> (r: Result<(), IpcError>)
        requires
            old(self).wf(),
            old(k).wf(),
        ensures
            final(self).wf(),
            final(k).wf(),
            final(self).next_handle == old(self).next_handle,
            forall|h: int| h != handle.0 ==> #[trigger] queue_at(final(self).queues@, h) == queue_at(old(self).queues@, h),
            queue_at(old(self).queues@, handle.0 as int) is None ==> r == Err::<(), IpcError>(IpcError::InvalidHandle)
                && final(self).queues@ == old(self).queues@ && *final(k) == *old(k),
            queue_at(old(self).queues@, handle.0 as int) matches Some(q0) ==> (queue_at(
                final(self).queues@,
                handle.0 as int,
            ) matches Some(q1) && send_outcome(q0, q1, r)),
            queue_at(old(self).queues@, handle.0 as int) matches Some(q0) ==> queue_at(final(self).queues@, handle.0 as int) matches Some(q1) && q1.capacity == q0.capacity && if q0.queue@.len() >= q0.capacity {
                &&& r == Err::<(), IpcError>(IpcError::QueueFull)
                &&& q1.queue@ == q0.queue@
                &&& q1.waiting_receivers@ == q0.waiting_receivers@
                &&& q1.waiting_senders@ == q0.waiting_senders@.push(Task(old(k).current_task_id))
                &&& blocked_on_queue(*old(k), *final(k), handle.0)
            } else {
                &&& r is Ok
                &&& q1.queue@.len() == q0.queue@.len() + 1
                &&& q1.queue@.drop_last() == q0.queue@
                &&& q1.queue@.last().type_key == type_key
                &&& q1.queue@.last().data == data
                &&& q1.waiting_senders@ == q0.waiting_senders@
                &&& waiters_served(q0.waiting_receivers@, q1.waiting_receivers@, *old(k), *final(k), handle.0)
            },
    {
        let ghost s0 = *self;
        let h = handle.0;
        if h >= self.queues.len() {
            return Err(IpcError::InvalidHandle);
        }
        let mut taken: Option<MessageQueue<M>> = None;
        std::mem::swap(&mut taken, &mut self.queues[h]);
        let mut queue = match taken {
            Some(q) => q,
            None => {
                proof {
                    assert(self.queues@ =~= s0.queues@);
                }
                return Err(IpcError::InvalidHandle);
            },
        };
        let r = if queue.is_full() {
            let mut current = Task(k.current_task_id);
            queue.waiting_senders.push(current);
            current.block(k, Event::Mq(h));
            Err(IpcError::QueueFull)
        } else {
            queue.queue.push_back(Message { type_key, data });
            if queue.waiting_receivers.len() > 0 {
                let _ = queue.waiting_receivers.pop();
                Event::wake_task(k, Event::Mq(h));
            }
            Ok(())
        };
        self.queues.set(h, Some(queue));
        proof {
            Self::lemma_fewer_live_keeps_wf(&s0, self);
        }
        r
    }

    /// Receives the oldest message of queue `handle`, which must carry key
    /// `type_key`. `InvalidHandle` when there is no such queue. When the
    /// queue is empty, the current task is recorded as waiting to receive and
    /// blocked on the queue's event, and `QueueEmpty` is returned. When the
    /// oldest message has another key, `TypeMismatch`, with nothing changed.
    /// Otherwise the message is taken and, when a sender was waiting, the
    /// waiters are served.
    pub fn receive(&mut self, k: &mut Kernel, handle: IpcHandle, type_key: u64) -> (r: Result<M, IpcError>)
        requires
            old(self).wf(),
            old(k).wf(),
        ensures
            final(self).wf(),
            final(k).wf(),
            final(self).next_handle == old(self).next_handle,
            forall|h: int| h != handle.0 ==> #[trigger] queue_at(final(self).queues@, h) == queue_at(old(self).queues@, h),
            queue_at(old(self).queues@, handle.0 as int) is None ==> r == Err::<M, IpcError>(IpcError::InvalidHandle)
                && final(self).queues@ == old(self).queues@ && *final(k) == *old(k),
            queue_at(old(self).queues@, handle.0 as int) matches Some(q0) ==> queue_at(final(self).queues@, handle.0 as int) matches Some(q1) && q1.capacity == q0.capacity && if q0.queue@.len() == 0 {
                &&& r == Err::<M, IpcError>(IpcError::QueueEmpty)
                &&& q1.queue@ == q0.queue@
                &&& q1.waiting_senders@ == q0.waiting_senders@
                &&& q1.waiting_receivers@ == q0.waiting_receivers@.push(Task(old(k).current_task_id))
                &&& blocked_on_queue(*old(k), *final(k), handle.0)
            } else if q0.queue@[0].type_key != type_key {
                &&& r == Err::<M, IpcError>(IpcError::TypeMismatch)
                &&& q1.queue@ == q0.queue@
                &&& q1.waiting_senders@ == q0.waiting_senders@
                &&& q1.waiting_receivers@ == q0.waiting_receivers@
                &&& *final(k) == *old(k)
            } else {
                &&& r == Ok::<M, IpcError>(q0.queue@[0].data)
                &&& q1.queue@ == q0.queue@.drop_first()
                &&& q1.waiting_receivers@ == q0.waiting_receivers@
                &&& waiters_served(q0.waiting_senders@, q1.waiting_senders@, *old(k), *final(k), handle.0)
            },
    {
        let ghost s0 = *self;
        let h = handle.0;
        if h >= self.queues.len() {
            return Err(IpcError::InvalidHandle);
        }
        let mut taken: Option<MessageQueue<M>> = None;
        std::mem::swap(&mut taken, &mut self.queues[h]);
        let mut queue = match taken {
            Some(q) => q,
            None => {
                proof {
                    assert(self.queues@ =~= s0.queues@);
                }
                return Err(IpcError::InvalidHandle);
            },
        };
        let r = if queue.is_empty() {
            let mut current = Task(k.current_task_id);
            queue.waiting_receivers.push(current);
            current.block(k, Event::Mq(h));
            Err(IpcError::QueueEmpty)
        } else if queue.queue[0].type_key != type_key {
            Err(IpcError::TypeMismatch)
        } else {
            let message = queue.queue.pop_front();
            if queue.waiting_senders.len() > 0 {
                let _ = queue.waiting_senders.pop();
                Event::wake_task(k, Event::Mq(h));
            }
            match message {
                Some(m) => Ok(m.data),
                None => Err(IpcError::QueueEmpty),
            }
        };
        self.queues.set(h, Some(queue));
        proof {
            Self::lemma_fewer_live_keeps_wf(&s0, self);
        }
        r
    }

    /// Removes queue `handle`; `InvalidHandle` for a handle that was never
    /// given out. Removing a removed queue succeeds.
    pub fn destroy_queue(&mut self, handle: IpcHandle) -> (r: Result<(), IpcError>)
        requires
            old(self).wf(),
        ensures
            final(self).wf(),
            final(self).next_handle == old(self).next_handle,
            handle.0 < old(self).queues@.len() ==> r is Ok && final(self).queues@ == old(self).queues@.update(
                handle.0 as int,
                None,
            ),
            handle.0 >= old(self).queues@.len() ==> r == Err::<(), IpcError>(IpcError::InvalidHandle)
                && final(self).queues@ == old(self).queues@,
    {
        if handle.0 < self.queues.len() {
            let ghost s0 = *self;
            self.queues.set(handle.0, None);
            proof {
                Self::lemma_fewer_live_keeps_wf(&s0, self);
            }
            Ok(())
        } else {
            Err(IpcError::InvalidHandle)
        }
    }

    /// Sends without waiting: as `send`, except that a full queue gives
    /// `QueueFull` at once and changes nothing, the current task neither
    /// blocked nor recorded as a waiting sender.
    pub fn try_send(&mut self, k: &mut Kernel, handle: IpcHandle, type_key: u64, data: M) -> (r: Result<(), IpcError>)
        requires
            old(self).wf(),
            old(k).wf(),
        ensures
            final(self).wf(),
            final(k).wf(),
            final(self).next_handle == old(self).next_handle,
            forall|h: int| h != handle.0 ==> #[trigger] queue_at(final(self).queues@, h) == queue_at(old(self).queues@, h),
            queue_at(old(self).queues@, handle.0 as int) is None ==> r == Err::<(), IpcError>(IpcError::InvalidHandle)
                && final(self).queues@ == old(self).queues@ && *final(k) == *old(k),
            queue_at(old(self).queues@, handle.0 as int) matches Some(q0) ==> (queue_at(
                final(self).queues@,
                handle.0 as int,
            ) matches Some(q1) && send_outcome(q0, q1, r)),
            queue_at(old(self).queues@, handle.0 as int) matches Some(q0) ==> if q0.queue@.len() >= q0.capacity {
                &&& r == Err::<(), IpcError>(IpcError::QueueFull)
                &&& final(self).queues@ == old(self).queues@
                &&& *final(k) == *old(k)
            } else {
                &&& queue_at(final(self).queues@, handle.0 as int) matches Some(q1)
                &&& q1.capacity == q0.capacity
                &&& r is Ok
                &&& q1.queue@.len() == q0.queue@.len() + 1
                &&& q1.queue@.drop_last() == q0.queue@
                &&& q1.queue@.last().type_key == type_key
                &&& q1.queue@.last().data == data
                &&& q1.waiting_senders@ == q0.waiting_senders@
                &&& waiters_served(q0.waiting_receivers@, q1.waiting_receivers@, *old(k), *final(k), handle.0)
            },
    {
        if handle.0 < self.queues.len() {
            let full = match &self.queues[handle.0] {
                Some(q) => q.is_full(),
                None => false,
            };
            if full {
                return Err(IpcError::QueueFull);
            }
        }
        self.send(k, handle, type_key, data)
    }

    /// Receives without waiting: as `receive`, except that an empty queue
    /// gives `QueueEmpty` at once and changes nothing, the current task
    /// neither blocked nor recorded as a waiting receiver.
    pub fn try_receive(&mut self, k: &mut Kernel, handle: IpcHandle, type_key: u64) -> (r: Result<M, IpcError>)
        requires
            old(self).wf(),
            old(k).wf(),
        ensures
            final(self).wf(),
            final(k).wf(),
            final(self).next_handle == old(self).next_handle,
            forall|h: int| h != handle.0 ==> #[trigger] queue_at(final(self).queues@, h) == queue_at(old(self).queues@, h),
            queue_at(old(self).queues@, handle.0 as int) is None ==> r == Err::<M, IpcError>(IpcError::InvalidHandle)
                && final(self).queues@ == old(self).queues@ && *final(k) == *old(k),
            queue_at(old(self).queues@, handle.0 as int) matches Some(q0) ==> if q0.queue@.len() == 0 {
                &&& r == Err::<M, IpcError>(IpcError::QueueEmpty)
                &&& final(self).queues@ == old(self).queues@
                &&& *final(k) == *old(k)
            } else if q0.queue@[0].type_key != type_key {
                &&& r == Err::<M, IpcError>(IpcError::TypeMismatch)
                &&& queue_at(final(self).queues@, handle.0 as int) matches Some(q1)
                &&& q1.capacity == q0.capacity
                &&& q1.queue@ == q0.queue@
                &&& q1.waiting_senders@ == q0.waiting_senders@
                &&& q1.waiting_receivers@ == q0.waiting_receivers@
                &&& *final(k) == *old(k)
            } else {
                &&& r == Ok::<M, IpcError>(q0.queue@[0].data)
                &&& queue_at(final(self).queues@, handle.0 as int) matches Some(q1)
                &&& q1.capacity == q0.capacity
                &&& q1.queue@ == q0.queue@.drop_first()
                &&& q1.waiting_receivers@ == q0.waiting_receivers@
                &&& waiters_served(q0.waiting_senders@, q1.waiting_senders@, *old(k), *final(k), handle.0)
            },
    {
        if handle.0 < self.queues.len() {
            let empty = match &self.queues[handle.0] {
                Some(q) => q.is_empty(),
                None => false,
            };
            if empty {
                return Err(IpcError::QueueEmpty);
            }
        }
        self.receive(k, handle, type_key)
    }
}

/// A call on the message queues as far as handles go: a `create_queue` with
/// the handle it returned, or any other call.
pub enum HandleCall {
    Create(IpcHandle),
    Other,
}

/// What call `c` does to the handles from `i0` to `i1`, as the calls'
/// contracts state it: `create_queue` returns the next handle and moves past
/// it; every other call keeps the next handle.
pub open spec fn handle_step<M>(c: HandleCall, i0: Ipc<M>, i1: Ipc<M>) -> bool {
    match c {
        HandleCall::Create(h) => h.0 == i0.next_handle && i1.next_handle == i0.next_handle + 1,
        HandleCall::Other => i1.next_handle == i0.next_handle,
    }
}

/// The handle a `create_queue` call returned; 0 for any other call.
pub open spec fn handle_of(c: HandleCall) -> usize {
    match c {
        HandleCall::Create(h) => h.0,
        HandleCall::Other => 0,
    }
}

/// Along a run of calls the next handle never goes down.
proof fn lemma_next_handle_grows<M>(st: Seq<Ipc<M>>, calls: Seq<HandleCall>, a: int, b: int)
    requires
        st.len() == calls.len() + 1,
        forall|i: int| 0 <= i < calls.len() ==> handle_step(#[trigger] calls[i], st[i], st[i + 1]),
        0 <= a <= b < st.len(),
    ensures
        st[a].next_handle <= st[b].next_handle,
    decreases b - a,
{
    if a < b {
        lemma_next_handle_grows(st, calls, a, b - 1);
        assert(handle_step(calls[b - 1], st[b - 1], st[b]));
    }
}

/// Handles are never given out twice: along any run of calls from a
/// well-formed state, removals included, the handles that `create_queue`
/// returns are at least 1 and pairwise distinct, each later one larger.
pub proof fn law_handles_never_reused<M>(st: Seq<Ipc<M>>, calls: Seq<HandleCall>)
    requires
        st.len() == calls.len() + 1,
        st[0].wf(),
        forall|i: int| 0 <= i < calls.len() ==> handle_step(#[trigger] calls[i], st[i], st[i + 1]),
    ensures
        forall|a: int| 0 <= a < calls.len() && #[trigger] calls[a] is Create ==> handle_of(calls[a]) >= 1,
        forall|a: int, b: int|
            0 <= a < b < calls.len() && #[trigger] calls[a] is Create && #[trigger] calls[b] is Create
                ==> handle_of(calls[a]) < handle_of(calls[b]),
{
    assert forall|a: int| 0 <= a < calls.len() && #[trigger] calls[a] is Create implies handle_of(calls[a]) >= 1 by {
        lemma_next_handle_grows(st, calls, 0, a);
        assert(handle_step(calls[a], st[a], st[a + 1]));
    }
    assert forall|a: int, b: int|
        0 <= a < b < calls.len() && #[trigger] calls[a] is Create && #[trigger] calls[b] is Create implies handle_of(calls[a])
        < handle_of(calls[b]) by {
        lemma_next_handle_grows(st, calls, a + 1, b);
        assert(handle_step(calls[a], st[a], st[a + 1]));
        assert(handle_step(calls[b], st[b], st[b + 1]));
    }
}

/// Along a run of sends to one queue, the length after `i` sends from
/// empty is `i` up to the capacity and the capacity from there on.
proof fn lemma_sends_fill<M>(qs: Seq<MessageQueue<M>>, rs: Seq<Result<(), IpcError>>, i: int)
    requires
        qs.len() == rs.len() + 1,
        qs[0].queue@.len() == 0,
        forall|j: int| 0 <= j < rs.len() ==> send_outcome(qs[j], qs[j + 1], #[trigger] rs[j]),
        0 <= i < qs.len(),
    ensures
        qs[i].capacity == qs[0].capacity,
        qs[i].queue@.len() == if i < qs[0].capacity {
            i
        } else {
            qs[0].capacity as int
        },
    decreases i,
{
    if i > 0 {
        lemma_sends_fill(qs, rs, i - 1);
        assert(send_outcome(qs[i - 1], qs[i], rs[i - 1]));
    }
}

/// A queue made for `cap` messages takes exactly `cap` of them: along a
/// run of sends to it from empty, the first `cap` succeed and every later
/// one gives `QueueFull`.
pub proof fn law_queue_takes_capacity<M>(qs: Seq<MessageQueue<M>>, rs: Seq<Result<(), IpcError>>)
    requires
        qs.len() == rs.len() + 1,
        qs[0].queue@.len() == 0,
        forall|j: int| 0 <= j < rs.len() ==> send_outcome(qs[j], qs[j + 1], #[trigger] rs[j]),
    ensures
        forall|j: int| 0 <= j < rs.len() && j < qs[0].capacity ==> (#[trigger] rs[j]) is Ok,
        forall|j: int| 0 <= j < rs.len() && j >= qs[0].capacity ==> #[trigger] rs[j] == Err::<(), IpcError>(
            IpcError::QueueFull,
        ),
{
    assert forall|j: int| 0 <= j < rs.len() implies (j < qs[0].capacity ==> (#[trigger] rs[j]) is Ok) && (j
        >= qs[0].capacity ==> rs[j] == Err::<(), IpcError>(IpcError::QueueFull)) by {
        lemma_sends_fill(qs, rs, j);
        assert(send_outcome(qs[j], qs[j + 1], rs[j]));
    }
}

} // verus!
