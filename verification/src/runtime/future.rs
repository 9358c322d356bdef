use vstd::prelude::*;
use core::marker::PhantomData;
use std::collections::VecDeque;
use crate::kernel::Kernel;
use crate::kernel::time::systick::Systick;

verus! {

/// The ticks left at tick `now` until `deadline`; 0 once it has passed.
pub open spec fn spec_remaining(deadline: usize, now: usize) -> nat {
    if now >= deadline {
        0
    } else {
        (deadline - now) as nat
    }
}

/// A sleep is over exactly when no time is left, and until then the time
/// left and the time passed add up to the deadline.
pub proof fn law_sleep_elapsed_iff_nothing_left(deadline: usize, now: usize)
    ensures
        (now >= deadline) <==> spec_remaining(deadline, now) == 0,
        now < deadline ==> now + spec_remaining(deadline, now) == deadline,
{
}

/// A sleep until tick `deadline`.
pub struct Sleep {
    pub deadline: usize,
    pub registered: bool,
}

impl Sleep {
    /// A sleep of `duration_ms` ticks from now.
    pub fn new(k: &Kernel, duration_ms: usize) -> (r: Sleep)
        requires
            k.time + duration_ms <= usize::MAX,
        ensures
            r.deadline == k.time + duration_ms,
            !r.registered,
    {
        Sleep { deadline: Systick::get_current_time(k) + duration_ms, registered: false }
    }

    /// The ticks left until the deadline; 0 once it has passed.
    pub fn remaining(&self, k: &Kernel) -> (r: usize)
        ensures
            r == spec_remaining(self.deadline, k.time),
    {
        let current = Systick::get_current_time(k);
        if current >= self.deadline {
            0
        } else {
            self.deadline - current
        }
    }

    /// Whether the deadline has passed.
    pub fn is_elapsed(&self, k: &Kernel) -> (r: bool)
        ensures
            r <==> k.time >= self.deadline,
    {
        Systick::get_current_time(k) >= self.deadline
    }

    /// One poll at tick `now`: ready once the deadline has passed; otherwise
    /// pending, and the sleep records that its waker has been registered.
    pub fn poll(&mut self, now: usize) -> (ready: bool)
        ensures
            ready <==> now >= old(self).deadline,
            final(self).deadline == old(self).deadline,
            final(self).registered == (old(self).registered || !ready),
    {
        if now >= self.deadline {
            true
        } else {
            if !self.registered {
                self.registered = true;
            }
            false
        }
    }
}

/// A sleep of `duration_ms` ticks from now.
pub fn sleep(k: &Kernel, duration_ms: usize) -> (r: Sleep)
    requires
        k.time + duration_ms <= usize::MAX,
    ensures
        r.deadline == k.time + duration_ms,
        !r.registered,
{
    Sleep::new(k, duration_ms)
}

/// A future that gives way once: the first poll is pending and asks to be
/// polled again, the next is ready.
pub struct Yield {
    pub yielded: bool,
}

impl Yield {
    /// One poll: ready when the future has already given way; otherwise it
    /// gives way now, and the caller wakes the task again.
    pub fn poll(&mut self) -> (ready: bool)
        ensures
            ready == old(self).yielded,
            final(self).yielded,
    {
        if self.yielded {
            true
        } else {
            self.yielded = true;
            false
        }
    }
}

/// A future that gives way once.
pub fn yield_now() -> (r: Yield)
    ensures
        !r.yielded,
{
    Yield { yielded: false }
}

/// A future that is ready at once with its value.
pub struct Ready<T> {
    pub value: Option<T>,
}

impl<T> Ready<T> {
    /// The only poll: gives the value out. A second poll is refused, as the
    /// value is gone.
    pub fn poll(&mut self) -> (r: T)
        requires
            old(self).value is Some,
        ensures
            r == old(self).value.unwrap(),
            final(self).value is None,
    {
        let mut taken: Option<T> = None;
        std::mem::swap(&mut taken, &mut self.value);
        taken.unwrap()
    }
}

/// A future that is ready at once with `value`.
pub fn ready<T>(value: T) -> (r: Ready<T>)
    ensures
        r.value == Some(value),
{
    Ready { value: Some(value) }
}

/// A future that is never ready.
pub struct Pending<T> {
    pub marker: PhantomData<T>,
}

impl<T> Pending<T> {
    /// Every poll is pending.
    pub fn poll(&mut self) -> (ready: bool)
        ensures
            !ready,
    {
        false
    }
}

/// A future that is never ready.
pub fn pending<T>() -> (r: Pending<T>) {
    Pending { marker: PhantomData }
}

/// A counting signal for asynchronous waiters: the number of signals not yet
/// taken, and the wakers of the waiters, oldest first.
pub struct AsyncSignal<W> {
    waiters: VecDeque<W>,
    count: usize,
}

impl<W> AsyncSignal<W> {
    /// The waiting wakers, oldest first.
    pub closed spec fn waiters(&self) -> Seq<W> {
        self.waiters@
    }

    /// The number of signals not yet taken.
    pub closed spec fn spec_count(&self) -> usize {
        self.count
    }

    /// A signal with no pending signal and no waiter.
    pub fn new() -> (r: Self)
        ensures
            r.spec_count() == 0,
            r.waiters().len() == 0,
    {
        AsyncSignal { waiters: VecDeque::new(), count: 0 }
    }

    /// Adds one signal and hands out the oldest waiter's waker to be woken,
    /// if there is a waiter.
    pub fn signal(&mut self) -> (woken: Option<W>)
        requires
            old(self).spec_count() < usize::MAX,
        ensures
            final(self).spec_count() == old(self).spec_count() + 1,
            old(self).waiters().len() == 0 ==> woken is None && final(self).waiters() == old(self).waiters(),
            old(self).waiters().len() > 0 ==> woken == Some(old(self).waiters()[0]) && final(self).waiters()
                == old(self).waiters().drop_first(),
    {
        self.count = self.count + 1;
        self.waiters.pop_front()
    }

    /// Adds `n` signals and hands out the wakers of up to `n` waiters,
    /// oldest first, to be woken.
    pub fn signal_n(&mut self, n: usize) -> (woken: Vec<W>)
        requires
            old(self).spec_count() + n <= usize::MAX,
        ensures
            final(self).spec_count() == old(self).spec_count() + n,
            ({
                let k = if n < old(self).waiters().len() { n as int } else { old(self).waiters().len() as int };
                &&& woken@ == old(self).waiters().take(k)
                &&& final(self).waiters() == old(self).waiters().skip(k)
            }),
    {
        self.count = self.count + n;
        let mut woken: Vec<W> = Vec::new();
        let ghost w0 = self.waiters@;
        let mut i: usize = 0;
        while i < n
            invariant_except_break
                i <= n,
                i <= w0.len(),
                woken@ == w0.take(i as int),
                self.waiters@ == w0.skip(i as int),
                self.count == old(self).count + n,
            ensures
                self.count == old(self).count + n,
                ({
                    let k = if n < w0.len() { n as int } else { w0.len() as int };
                    &&& woken@ == w0.take(k)
                    &&& self.waiters@ == w0.skip(k)
                }),
            decreases n - i,
        {
            match self.waiters.pop_front() {
                Some(w) => {
                    assert(w0.take(i as int).push(w) =~= w0.take(i as int + 1));
                    assert(w0.skip(i as int).drop_first() =~= w0.skip(i as int + 1));
                    woken.push(w);
                    i = i + 1;
                },
                None => {
                    assert(i == w0.len());
                    break;
                },
            }
        }
        woken
    }

    /// Takes a signal when one is pending, and says whether it did.
    pub fn try_wait(&mut self) -> (taken: bool)
        ensures
            taken <==> old(self).spec_count() > 0,
            final(self).spec_count() == if taken { old(self).spec_count() - 1 } else { old(self).spec_count() as int },
            final(self).waiters() == old(self).waiters(),
    {
        if self.count > 0 {
            self.count = self.count - 1;
            true
        } else {
            false
        }
    }

    /// One poll of a wait: takes a pending signal, or queues `waker` to be
    /// handed out by a later signal. Says whether a signal was taken.
    pub fn poll_wait(&mut self, waker: W) -> (taken: bool)
        ensures
            taken <==> old(self).spec_count() > 0,
            taken ==> final(self).spec_count() == old(self).spec_count() - 1 && final(self).waiters()
                == old(self).waiters(),
            !taken ==> final(self).spec_count() == old(self).spec_count() && final(self).waiters()
                == old(self).waiters().push(waker),
    {
        if self.count > 0 {
            self.count = self.count - 1;
            true
        } else {
            self.waiters.push_back(waker);
            false
        }
    }

    /// The number of signals not yet taken.
    pub fn count(&self) -> (r: usize)
        ensures
            r == self.spec_count(),
    {
        self.count
    }
}

} // verus!
