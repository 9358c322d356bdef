//! Typed channels with fixed ids.
//!
//! Each channel is a ring buffer of `CHANNEL_CAPACITY` messages registered
//! under one of the `ChannelId`s. A `Sender` and a `Receiver` name the
//! channel they were made for and reach it only through that id: handing
//! them the buffer of another channel is refused with `ChannelNotFound`.
use vstd::prelude::*;
use core::marker::PhantomData;
use crate::ipc::queue::wrap_n;

verus! {

/// The number of channel ids.
pub const MAX_CHANNELS: usize = 8;

/// The number of messages a channel holds.
pub const CHANNEL_CAPACITY: usize = 16;

/// The fixed channel ids.
#[derive(Debug, Clone, Copy, PartialEq, Eq, Structural)]
pub enum ChannelId {
    SystemLog,
    InterruptToTask,
    TaskToTask,
    UserChannel0,
    UserChannel1,
    UserChannel2,
    UserChannel3,
    UserChannel4,
}

impl ChannelId {
    /// The number of a channel id, in declaration order from 0.
    pub open spec fn spec_index(self) -> nat {
        match self {
            ChannelId::SystemLog => 0,
            ChannelId::InterruptToTask => 1,
            ChannelId::TaskToTask => 2,
            ChannelId::UserChannel0 => 3,
            ChannelId::UserChannel1 => 4,
            ChannelId::UserChannel2 => 5,
            ChannelId::UserChannel3 => 6,
            ChannelId::UserChannel4 => 7,
        }
    }

    /// The number of a channel id.
    pub fn index(self) -> (r: usize)
        ensures
            r == self.spec_index(),
            r < MAX_CHANNELS,
    {
        match self {
            ChannelId::SystemLog => 0,
            ChannelId::InterruptToTask => 1,
            ChannelId::TaskToTask => 2,
            ChannelId::UserChannel0 => 3,
            ChannelId::UserChannel1 => 4,
            ChannelId::UserChannel2 => 5,
            ChannelId::UserChannel3 => 6,
            ChannelId::UserChannel4 => 7,
        }
    }
}

/// Errors of channel operations.
#[derive(Debug, Clone, Copy, PartialEq, Eq, Structural)]
pub enum IpcError {
    ChannelNotFound,
    ChannelFull,
    ChannelEmpty,
    TypeMismatch,
    InvalidChannel,
}

/// A ring of `CHANNEL_CAPACITY` message slots.
pub struct RingBuffer<T> {
    slots: Vec<Option<T>>,
    head: usize,
    tail: usize,
    count: usize,
}

impl<T> RingBuffer<T> {
    /// The stored messages, oldest first.
    pub closed spec fn view(&self) -> Seq<T> {
        Seq::new(
            self.count as nat,
            |i: int| self.slots@[wrap_n(self.head + i, CHANNEL_CAPACITY as int)].unwrap(),
        )
    }

    /// The ring is well formed and its live slots hold messages.
    pub closed spec fn wf(&self) -> bool {
        &&& self.slots@.len() == CHANNEL_CAPACITY
        &&& self.head < CHANNEL_CAPACITY
        &&& self.tail < CHANNEL_CAPACITY
        &&& self.count <= CHANNEL_CAPACITY
        &&& self.tail as int == wrap_n(self.head + self.count, CHANNEL_CAPACITY as int)
        &&& forall|i: int|
            0 <= i < self.count ==> #[trigger] self.slots@[wrap_n(self.head + i, CHANNEL_CAPACITY as int)] is Some
    }

    /// An empty ring.
    pub fn new() -> (r: Self)
        ensures
            r.wf(),
            r@ == Seq::<T>::empty(),
    {
        let mut slots: Vec<Option<T>> = Vec::new();
        let mut i: usize = 0;
        while i < CHANNEL_CAPACITY
            invariant
                i <= CHANNEL_CAPACITY,
                slots@.len() == i,
            decreases CHANNEL_CAPACITY - i,
        {
            slots.push(None);
            i = i + 1;
        }
        let r = RingBuffer { slots, head: 0, tail: 0, count: 0 };
        assert(r@ =~= Seq::<T>::empty());
        r
    }

    /// Appends `value`; gives it back, with nothing changed, when the ring is
    /// full.
    pub fn push(&mut self, value: T) -> (r: Result<(), T>)
        requires
            old(self).wf(),
        ensures
            final(self).wf(),
            old(self)@.len() >= CHANNEL_CAPACITY ==> r == Err::<(), T>(value) && final(self)@ == old(self)@,
            old(self)@.len() < CHANNEL_CAPACITY ==> r is Ok && final(self)@ == old(self)@.push(value),
    {
        if self.count >= CHANNEL_CAPACITY {
            return Err(value);
        }
        let ghost old_view = self@;
        let tail = self.tail;
        self.slots.set(tail, Some(value));
        self.tail = if tail + 1 == CHANNEL_CAPACITY { 0 } else { tail + 1 };
        self.count = self.count + 1;
        assert forall|i: int| 0 <= i < self.count implies #[trigger] self.slots@[wrap_n(self.head + i, CHANNEL_CAPACITY as int)] is Some by {
            if i < self.count - 1 {
                assert(wrap_n(self.head + i, CHANNEL_CAPACITY as int) != tail);
            }
        }
        assert(self@ =~= old_view.push(value)) by {
            assert forall|i: int| 0 <= i < old_view.len() implies self@[i] == old_view[i] by {
                assert(wrap_n(self.head + i, CHANNEL_CAPACITY as int) != tail);
            }
        }
        Ok(())
    }

    /// Takes the oldest message; `None` when the ring is empty.
    pub fn pop(&mut self) -> (r: Option<T>)
        requires
            old(self).wf(),
        ensures
            final(self).wf(),
            old(self)@.len() == 0 ==> r is None && final(self)@ == old(self)@,
            old(self)@.len() > 0 ==> r == Some(old(self)@[0]) && final(self)@ == old(self)@.drop_first(),
    {
        if self.count == 0 {
            return None;
        }
        let ghost old_view = self@;
        let head = self.head;
        assert(self.slots@[wrap_n(head + 0, CHANNEL_CAPACITY as int)] is Some);
        let mut taken: Option<T> = None;
        std::mem::swap(&mut taken, &mut self.slots[head]);
        self.head = if head + 1 == CHANNEL_CAPACITY { 0 } else { head + 1 };
        self.count = self.count - 1;
        let ghost old_slots = old(self).slots@;
        assert forall|i: int| 0 <= i < self.count implies #[trigger] self.slots@[wrap_n(self.head + i, CHANNEL_CAPACITY as int)] is Some by {
            assert(wrap_n(self.head + i, CHANNEL_CAPACITY as int) == wrap_n(head + i + 1, CHANNEL_CAPACITY as int));
            assert(wrap_n(head + i + 1, CHANNEL_CAPACITY as int) != head);
            assert(old_slots[wrap_n(head + (i + 1), CHANNEL_CAPACITY as int)] is Some);
        }
        assert(self@ =~= old_view.drop_first()) by {
            assert forall|i: int| 0 <= i < self@.len() implies self@[i] == old_view.drop_first()[i] by {
                assert(wrap_n(self.head + i, CHANNEL_CAPACITY as int) == wrap_n(head + i + 1, CHANNEL_CAPACITY as int));
            }
        }
        taken
    }

    /// Whether the ring holds `CHANNEL_CAPACITY` messages.
    pub fn is_full(&self) -> (r: bool)
        requires
            self.wf(),
        ensures
            r <==> self@.len() == CHANNEL_CAPACITY,
    {
        self.count >= CHANNEL_CAPACITY
    }

    /// Whether the ring holds no message.
    pub fn is_empty(&self) -> (r: bool)
        requires
            self.wf(),
        ensures
            r <==> self@.len() == 0,
    {
        self.count == 0
    }
}

/// A ring buffer registered under a channel id.
pub struct Channel<T> {
    id: ChannelId,
    buffer: RingBuffer<T>,
}

impl<T> Channel<T> {
    /// The stored messages, oldest first.
    pub closed spec fn view(&self) -> Seq<T> {
        self.buffer@
    }

    /// The id the channel is registered under.
    pub closed spec fn spec_id(&self) -> ChannelId {
        self.id
    }

    /// The channel's buffer is well formed.
    pub closed spec fn wf(&self) -> bool {
        self.buffer.wf()
    }

    /// The id the channel is registered under.
    pub fn id(&self) -> (r: ChannelId)
        ensures
            r == self.spec_id(),
    {
        self.id
    }

    /// The number of stored messages.
    pub fn len(&self) -> (r: usize)
        requires
            self.wf(),
        ensures
            r == self@.len(),
    {
        self.buffer.count
    }
}

/// The sending side of a channel of `T` messages.
pub struct Sender<T> {
    channel_id: ChannelId,
    _phantom: PhantomData<T>,
}

/// The receiving side of a channel of `T` messages.
pub struct Receiver<T> {
    channel_id: ChannelId,
    _phantom: PhantomData<T>,
}

/// Registers an empty channel of `T` messages under `channel_id`, with its
/// sender and receiver.
pub fn create_global_channel<T>(channel_id: ChannelId) -> (r: (Channel<T>, Sender<T>, Receiver<T>))
    ensures
        r.0.wf(),
        r.0@ == Seq::<T>::empty(),
        r.0.spec_id() == channel_id,
        r.1.spec_channel_id() == channel_id,
        r.2.spec_channel_id() == channel_id,
{
    let channel = Channel { id: channel_id, buffer: RingBuffer::new() };
    (channel, Sender { channel_id, _phantom: PhantomData }, Receiver { channel_id, _phantom: PhantomData })
}

impl<T> Sender<T> {
    /// The id of the channel this side was made for.
    pub closed spec fn spec_channel_id(&self) -> ChannelId {
        self.channel_id
    }

    /// The id of the channel this side was made for.
    pub fn channel_id(&self) -> (r: ChannelId)
        ensures
            r == self.spec_channel_id(),
    {
        self.channel_id
    }

    /// Appends `message` to the channel: `ChannelNotFound` when `channel` is
    /// not registered under this sender's id, `ChannelFull` when it holds
    /// `CHANNEL_CAPACITY` messages; the channel is unchanged on an error.
    pub fn send(&self, channel: &mut Channel<T>, message: T) -> (r: Result<(), IpcError>)
        requires
            old(channel).wf(),
        ensures
            final(channel).wf(),
            final(channel).spec_id() == old(channel).spec_id(),
            old(channel).spec_id() != self.spec_channel_id() ==> r == Err::<(), IpcError>(IpcError::ChannelNotFound)
                && final(channel)@ == old(channel)@,
            old(channel).spec_id() == self.spec_channel_id() && old(channel)@.len() >= CHANNEL_CAPACITY ==> r
                == Err::<(), IpcError>(IpcError::ChannelFull) && final(channel)@ == old(channel)@,
            old(channel).spec_id() == self.spec_channel_id() && old(channel)@.len() < CHANNEL_CAPACITY ==> r is Ok
                && final(channel)@ == old(channel)@.push(message),
    {
        if channel.id != self.channel_id {
            return Err(IpcError::ChannelNotFound);
        }
        match channel.buffer.push(message) {
            Ok(()) => Ok(()),
            Err(_) => Err(IpcError::ChannelFull),
        }
    }

    /// The same as `send`: a send never waits.
    pub fn try_send(&self, channel: &mut Channel<T>, message: T) -> (r: Result<(), IpcError>)
        requires
            old(channel).wf(),
        ensures
            final(channel).wf(),
            final(channel).spec_id() == old(channel).spec_id(),
            old(channel).spec_id() != self.spec_channel_id() ==> r == Err::<(), IpcError>(IpcError::ChannelNotFound)
                && final(channel)@ == old(channel)@,
            old(channel).spec_id() == self.spec_channel_id() && old(channel)@.len() >= CHANNEL_CAPACITY ==> r
                == Err::<(), IpcError>(IpcError::ChannelFull) && final(channel)@ == old(channel)@,
            old(channel).spec_id() == self.spec_channel_id() && old(channel)@.len() < CHANNEL_CAPACITY ==> r is Ok
                && final(channel)@ == old(channel)@.push(message),
    {
        self.send(channel, message)
    }
}

impl<T> Receiver<T> {
    /// The id of the channel this side was made for.
    pub closed spec fn spec_channel_id(&self) -> ChannelId {
        self.channel_id
    }

    /// The id of the channel this side was made for.
    pub fn channel_id(&self) -> (r: ChannelId)
        ensures
            r == self.spec_channel_id(),
    {
        self.channel_id
    }

    /// Takes the oldest message of the channel: `ChannelNotFound` when
    /// `channel` is not registered under this receiver's id, `ChannelEmpty`
    /// when it holds no message; the channel is unchanged on an error.
    pub fn recv(&self, channel: &mut Channel<T>) -> (r: Result<T, IpcError>)
        requires
            old(channel).wf(),
        ensures
            final(channel).wf(),
            final(channel).spec_id() == old(channel).spec_id(),
            old(channel).spec_id() != self.spec_channel_id() ==> r == Err::<T, IpcError>(IpcError::ChannelNotFound)
                && final(channel)@ == old(channel)@,
            old(channel).spec_id() == self.spec_channel_id() && old(channel)@.len() == 0 ==> r
                == Err::<T, IpcError>(IpcError::ChannelEmpty) && final(channel)@ == old(channel)@,
            old(channel).spec_id() == self.spec_channel_id() && old(channel)@.len() > 0 ==> r == Ok::<T, IpcError>(
                old(channel)@[0],
            ) && final(channel)@ == old(channel)@.drop_first(),
    {
        if channel.id != self.channel_id {
            return Err(IpcError::ChannelNotFound);
        }
        match channel.buffer.pop() {
            Some(v) => Ok(v),
            None => Err(IpcError::ChannelEmpty),
        }
    }

    /// The same as `recv`: a receive never waits.
    pub fn try_recv(&self, channel: &mut Channel<T>) -> (r: Result<T, IpcError>)
        requires
            old(channel).wf(),
        ensures
            final(channel).wf(),
            final(channel).spec_id() == old(channel).spec_id(),
            old(channel).spec_id() != self.spec_channel_id() ==> r == Err::<T, IpcError>(IpcError::ChannelNotFound)
                && final(channel)@ == old(channel)@,
            old(channel).spec_id() == self.spec_channel_id() && old(channel)@.len() == 0 ==> r
                == Err::<T, IpcError>(IpcError::ChannelEmpty) && final(channel)@ == old(channel)@,
            old(channel).spec_id() == self.spec_channel_id() && old(channel)@.len() > 0 ==> r == Ok::<T, IpcError>(
                old(channel)@[0],
            ) && final(channel)@ == old(channel)@.drop_first(),
    {
        self.recv(channel)
    }
}

/// The channel contents after `ms` were sent, one after the other, to a
/// channel holding `v`, each send appending its message.
pub open spec fn after_sends<T>(v: Seq<T>, ms: Seq<T>) -> Seq<T>
    decreases ms.len(),
{
    if ms.len() == 0 {
        v
    } else {
        after_sends(v.push(ms[0]), ms.drop_first())
    }
}

/// The messages that `n` receives give out of a channel holding `v`, each
/// receive taking the oldest message.
pub open spec fn received<T>(v: Seq<T>, n: nat) -> Seq<T>
    decreases n,
{
    if n == 0 || v.len() == 0 {
        Seq::empty()
    } else {
        seq![v[0]] + received(v.drop_first(), (n - 1) as nat)
    }
}

proof fn lemma_after_sends<T>(v: Seq<T>, ms: Seq<T>)
    ensures
        after_sends(v, ms) == v + ms,
    decreases ms.len(),
{
    if ms.len() > 0 {
        lemma_after_sends(v.push(ms[0]), ms.drop_first());
        assert(v.push(ms[0]) + ms.drop_first() =~= v + ms);
    } else {
        assert(v + ms =~= v);
    }
}

proof fn lemma_received_all<T>(v: Seq<T>)
    ensures
        received(v, v.len()) == v,
    decreases v.len(),
{
    if v.len() > 0 {
        lemma_received_all(v.drop_first());
        assert(seq![v[0]] + v.drop_first() =~= v);
    } else {
        assert(v =~= Seq::<T>::empty());
    }
}

/// A channel is first in, first out: messages sent to an empty channel
/// come out of it in the order they were sent, as many as there were.
pub proof fn law_channel_fifo<T>(ms: Seq<T>)
    requires
        ms.len() <= CHANNEL_CAPACITY,
    ensures
        received(after_sends(Seq::<T>::empty(), ms), ms.len()) == ms,
{
    lemma_after_sends(Seq::<T>::empty(), ms);
    assert(Seq::<T>::empty() + ms =~= ms);
    lemma_received_all(ms);
}

} // verus!
