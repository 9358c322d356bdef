use vstd::prelude::*;
use crate::config::{MAX_TASKS, MAX_TIMERS};
use crate::error::{Result, RtosError};
use crate::kernel::Kernel;
use crate::kernel::scheduler::set_state;
use crate::kernel::task::{Task, TaskState, Tcb};
use crate::kernel::scheduler::Scheduler;
use crate::sync::event::{Event, wake_all, woken_by};

verus! {

/// The state of a timer slot in use.
#[derive(Debug, PartialEq, Eq, Clone, Copy, Structural)]
pub struct TimerInner {
    /// Whether the timer is started.
    pub running: bool,
    /// The tick at which the timer expires.
    pub timeout: usize,
    /// Bumped at every start and stop; an expiry event counts only while it
    /// carries the current number.
    pub seq: usize,
    /// The task to wake first when the timer expires.
    pub waiter: Option<usize>,
    /// The generation of the slot when this timer was created; the events
    /// of earlier timers in the slot carry older generations.
    pub generation: usize,
}

/// A pending expiry: the timer of generation `generation` in slot `id`,
/// started with sequence number `seq`, expires at tick `timeout`.
#[derive(Debug, PartialEq, Eq, Clone, Copy, Structural)]
pub struct TimerEvent {
    pub timeout: usize,
    pub id: usize,
    pub seq: usize,
    pub generation: usize,
}

/// The timer slots and the pending expiry events.
pub struct TimerManager {
    /// One slot per timer; `None` when free.
    pub timers: Vec<Option<TimerInner>>,
    /// The pending expiry events, in no particular order.
    pub heap: Vec<TimerEvent>,
    /// Per slot, the generation of the latest timer created in it; it
    /// survives the timer's deletion.
    pub generations: Vec<usize>,
}

/// The generation after `g`; it stays at `usize::MAX` once there.
pub open spec fn next_generation(g: usize) -> usize {
    if g == usize::MAX {
        g
    } else {
        (g + 1) as usize
    }
}

/// `g + 1`, staying at `usize::MAX`.
fn bump_generation(g: usize) -> (r: usize)
    ensures
        r == next_generation(g),
{
    if g == usize::MAX {
        g
    } else {
        g + 1
    }
}

/// The sequence number after `s`, wrapping around.
pub open spec fn next_seq(s: usize) -> usize {
    if s == usize::MAX {
        0
    } else {
        (s + 1) as usize
    }
}

/// `s + 1`, wrapping around to 0.
fn bump_seq(s: usize) -> (r: usize)
    ensures
        r == next_seq(s),
{
    if s == usize::MAX {
        0
    } else {
        s + 1
    }
}

/// Whether event `e` still counts: the timer in its slot is the one that
/// queued it (same generation), is started, and was last started when `e`
/// was queued.
pub open spec fn valid_event(e: TimerEvent, ts: Seq<Option<TimerInner>>) -> bool {
    &&& 0 <= e.id < ts.len()
    &&& ts[e.id as int] is Some
    &&& ts[e.id as int].unwrap().running
    &&& ts[e.id as int].unwrap().seq == e.seq
    &&& ts[e.id as int].unwrap().generation == e.generation
}

/// Whether `a` comes out of the event queue before `b`: earlier expiry
/// first, and among equal expiries the larger timer id first.
pub open spec fn key_before(a: TimerEvent, b: TimerEvent) -> bool {
    a.timeout < b.timeout || (a.timeout == b.timeout && a.id > b.id)
}

/// The events among the first `n` of `h` that have not expired at `now`.
pub open spec fn pending_events(h: Seq<TimerEvent>, now: usize, n: int) -> Seq<TimerEvent>
    decreases n,
{
    if n <= 0 {
        Seq::empty()
    } else if h[n - 1].timeout > now {
        pending_events(h, now, n - 1).push(h[n - 1])
    } else {
        pending_events(h, now, n - 1)
    }
}

/// How many of the first `n` events of `h` are expired at `now`, still
/// count, and belong to timer `id`.
pub open spec fn fire_count(h: Seq<TimerEvent>, ts: Seq<Option<TimerInner>>, now: usize, n: int, id: int) -> nat
    decreases n,
{
    if n <= 0 {
        0
    } else {
        fire_count(h, ts, now, n - 1, id) + if h[n - 1].timeout <= now && h[n - 1].id == id
            && valid_event(h[n - 1], ts) {
            1nat
        } else {
            0nat
        }
    }
}

/// Whether timer `id` has a waiter that is blocked on it.
pub open spec fn directed(ts: Seq<Option<TimerInner>>, tasks: Seq<Tcb>, id: int) -> bool {
    let w = ts[id].unwrap().waiter;
    &&& w is Some
    &&& w.unwrap() < MAX_TASKS
    &&& tasks[w.unwrap() as int].state == TaskState::Blocked(Event::Timer(id as usize))
}

/// Task `j` after the first `n` events of `h` were handled at `now`: a task
/// blocked on a timer that fired becomes ready, except that when that timer
/// fired once and its waiter was blocked on it, only the waiter does.
pub open spec fn fired_tcb(
    tasks: Seq<Tcb>,
    ts: Seq<Option<TimerInner>>,
    h: Seq<TimerEvent>,
    now: usize,
    n: int,
    j: int,
) -> Tcb {
    match tasks[j].state {
        TaskState::Blocked(Event::Timer(id)) => {
            let c = fire_count(h, ts, now, n, id as int);
            if id < MAX_TIMERS && c >= 1 && (c >= 2 || !directed(ts, tasks, id as int)
                || ts[id as int].unwrap().waiter == Some(j as usize)) {
                Tcb { state: TaskState::Ready, ..tasks[j] }
            } else {
                tasks[j]
            }
        },
        _ => tasks[j],
    }
}

/// Timer slot `i` after the first `n` events of `h` were handled at `now`:
/// a timer that fired has no waiter any more.
pub open spec fn fired_timer(ts: Seq<Option<TimerInner>>, h: Seq<TimerEvent>, now: usize, n: int, i: int) -> Option<TimerInner> {
    if fire_count(h, ts, now, n, i) >= 1 {
        Some(TimerInner { waiter: None, ..ts[i].unwrap() })
    } else {
        ts[i]
    }
}

/// The first key-minimal event among the first `n` of `h` that still counts.
pub open spec fn best_valid(h: Seq<TimerEvent>, ts: Seq<Option<TimerInner>>, n: int) -> Option<TimerEvent>
    decreases n,
{
    if n <= 0 {
        None
    } else {
        let b = best_valid(h, ts, n - 1);
        let e = h[n - 1];
        if valid_event(e, ts) && (b is None || key_before(e, b.unwrap())) {
            Some(e)
        } else {
            b
        }
    }
}

/// The first `n` events of `h` without the ones that no longer count and
/// come out before `m` (all of those when there is no `m`).
pub open spec fn lazily_cleaned(
    h: Seq<TimerEvent>,
    ts: Seq<Option<TimerInner>>,
    m: Option<TimerEvent>,
    n: int,
) -> Seq<TimerEvent>
    decreases n,
{
    if n <= 0 {
        Seq::empty()
    } else {
        let p = lazily_cleaned(h, ts, m, n - 1);
        let e = h[n - 1];
        if !valid_event(e, ts) && (m is None || key_before(e, m.unwrap())) {
            p
        } else {
            p.push(e)
        }
    }
}

/// The first free timer slot in `0..n`, or -1.
pub open spec fn first_none(ts: Seq<Option<TimerInner>>, n: int) -> int
    decreases n,
{
    if n <= 0 {
        -1
    } else if first_none(ts, n - 1) >= 0 {
        first_none(ts, n - 1)
    } else if ts[n - 1] is None {
        n - 1
    } else {
        -1
    }
}

/// What `first_none` means.
pub proof fn lemma_first_none(ts: Seq<Option<TimerInner>>, n: int)
    requires
        0 <= n <= ts.len(),
    ensures
        first_none(ts, n) < n,
        first_none(ts, n) >= 0 ==> ts[first_none(ts, n)] is None && forall|j: int|
            0 <= j < first_none(ts, n) ==> #[trigger] ts[j] is Some,
        first_none(ts, n) < 0 ==> first_none(ts, n) == -1 && forall|j: int|
            0 <= j < n ==> #[trigger] ts[j] is Some,
    decreases n,
{
    if n > 0 {
        lemma_first_none(ts, n - 1);
    }
}

/// The ids, ascending, of the timer slots in `0..n` that are in use.
pub open spec fn used_ids(ts: Seq<Option<TimerInner>>, n: int) -> Seq<usize>
    decreases n,
{
    if n <= 0 {
        Seq::empty()
    } else if ts[n - 1] is Some {
        used_ids(ts, n - 1).push((n - 1) as usize)
    } else {
        used_ids(ts, n - 1)
    }
}

/// One more event changes only the count of its own timer.
proof fn lemma_fire_count_step(h: Seq<TimerEvent>, ts: Seq<Option<TimerInner>>, now: usize, i: int)
    requires
        0 <= i < h.len(),
    ensures
        forall|id: int|
            #[trigger] fire_count(h, ts, now, i + 1, id) == fire_count(h, ts, now, i, id) + if h[i].timeout
                <= now && h[i].id == id && valid_event(h[i], ts) {
                1nat
            } else {
                0nat
            },
{
}

/// A timer that has fired is in use.
proof fn lemma_fire_count_some(h: Seq<TimerEvent>, ts: Seq<Option<TimerInner>>, now: usize, n: int, id: int)
    requires
        0 <= n,
    ensures
        fire_count(h, ts, now, n, id) >= 1 ==> 0 <= id < ts.len() && ts[id] is Some,
    decreases n,
{
    if n > 0 {
        lemma_fire_count_some(h, ts, now, n - 1, id);
    }
}

/// The state of task `j` after the first `i` events, compared with before.
proof fn lemma_fired_state(
    tasks0: Seq<Tcb>,
    ts: Seq<Option<TimerInner>>,
    h: Seq<TimerEvent>,
    now: usize,
    i: int,
    j: int,
    id: usize,
)
    requires
        0 <= i,
    ensures
        fire_count(h, ts, now, i, id as int) == 0 ==> (fired_tcb(tasks0, ts, h, now, i, j).state
            == TaskState::Blocked(Event::Timer(id)) <==> tasks0[j].state == TaskState::Blocked(
            Event::Timer(id),
        )),
{
}

/// Waking every task blocked on the timer of the `i`-th event moves the
/// tasks from the state after `i` events to the state after `i + 1`, when
/// that wake-up is what the event does.
proof fn lemma_wake_all_step(
    tasks0: Seq<Tcb>,
    ts: Seq<Option<TimerInner>>,
    h: Seq<TimerEvent>,
    now: usize,
    i: int,
    id: usize,
    before: Seq<Tcb>,
    after: Seq<Tcb>,
)
    requires
        0 <= i < h.len(),
        h[i].id == id,
        h[i].timeout <= now,
        valid_event(h[i], ts),
        id < MAX_TIMERS,
        ts.len() == MAX_TIMERS,
        tasks0.len() == MAX_TASKS,
        before == Seq::new(MAX_TASKS as nat, |j: int| fired_tcb(tasks0, ts, h, now, i, j)),
        after == wake_all(before, Event::Timer(id)),
        fire_count(h, ts, now, i, id as int) == 0 ==> !directed(ts, tasks0, id as int),
    ensures
        after == Seq::new(MAX_TASKS as nat, |j: int| fired_tcb(tasks0, ts, h, now, i + 1, j)),
{
    lemma_fire_count_step(h, ts, now, i);
    assert forall|j: int| 0 <= j < MAX_TASKS implies #[trigger] after[j] == fired_tcb(
        tasks0,
        ts,
        h,
        now,
        i + 1,
        j,
    ) by {
        assert(after[j] == woken_by(before[j], Event::Timer(id)));
    }
    assert(after =~= Seq::new(MAX_TASKS as nat, |j: int| fired_tcb(tasks0, ts, h, now, i + 1, j)));
}

/// Waking the waiter alone, when it is blocked on the timer and the timer
/// fires for the first time, moves the tasks to the state after `i + 1`
/// events.
proof fn lemma_wake_one_step(
    tasks0: Seq<Tcb>,
    ts: Seq<Option<TimerInner>>,
    h: Seq<TimerEvent>,
    now: usize,
    i: int,
    id: usize,
    w: usize,
    before: Seq<Tcb>,
    after: Seq<Tcb>,
)
    requires
        0 <= i < h.len(),
        h[i].id == id,
        h[i].timeout <= now,
        valid_event(h[i], ts),
        id < MAX_TIMERS,
        ts.len() == MAX_TIMERS,
        tasks0.len() == MAX_TASKS,
        w < MAX_TASKS,
        before == Seq::new(MAX_TASKS as nat, |j: int| fired_tcb(tasks0, ts, h, now, i, j)),
        before[w as int].state == TaskState::Blocked(Event::Timer(id)),
        after == before.update(w as int, Tcb { state: TaskState::Ready, ..before[w as int] }),
        fire_count(h, ts, now, i, id as int) == 0,
        ts[id as int].unwrap().waiter == Some(w),
    ensures
        after == Seq::new(MAX_TASKS as nat, |j: int| fired_tcb(tasks0, ts, h, now, i + 1, j)),
{
    lemma_fire_count_step(h, ts, now, i);
    lemma_fired_state(tasks0, ts, h, now, i, w as int, id);
    assert(directed(ts, tasks0, id as int));
    assert forall|j: int| 0 <= j < MAX_TASKS implies #[trigger] after[j] == fired_tcb(
        tasks0,
        ts,
        h,
        now,
        i + 1,
        j,
    ) by {
        lemma_fired_state(tasks0, ts, h, now, i, j, id);
    }
    assert(after =~= Seq::new(MAX_TASKS as nat, |j: int| fired_tcb(tasks0, ts, h, now, i + 1, j)));
}

impl TimerManager {
    /// Every slot exists with its generation; a timer in use carries its
    /// slot's generation; every event names a slot and carries a generation
    /// no newer than the slot's.
    pub open spec fn wf(&self) -> bool {
        &&& self.timers@.len() == MAX_TIMERS
        &&& self.generations@.len() == MAX_TIMERS
        &&& forall|i: int|
            0 <= i < MAX_TIMERS && #[trigger] self.timers@[i] is Some ==> self.timers@[i].unwrap().generation
                == self.generations@[i]
        &&& forall|i: int|
            0 <= i < self.heap@.len() ==> (#[trigger] self.heap@[i]).id < MAX_TIMERS && self.heap@[i].generation
                <= self.generations@[self.heap@[i].id as int]
    }

    /// No timer in use and no event.
    pub fn new() -> (r: TimerManager)
        ensures
            r.wf(),
            r.heap@.len() == 0,
            forall|i: int| 0 <= i < MAX_TIMERS ==> #[trigger] r.timers@[i] is None,
    {
        let mut timers: Vec<Option<TimerInner>> = Vec::new();
        let mut generations: Vec<usize> = Vec::new();
        let mut i: usize = 0;
        while i < MAX_TIMERS
            invariant
                i <= MAX_TIMERS,
                timers@.len() == i,
                generations@.len() == i,
                forall|j: int| 0 <= j < i ==> #[trigger] timers@[j] is None,
            decreases MAX_TIMERS - i,
        {
            timers.push(None);
            generations.push(0);
            i = i + 1;
        }
        TimerManager { timers, heap: Vec::new(), generations }
    }
}

/// A handle on a timer slot.
pub struct Timer(pub usize);

impl Timer {
    /// Takes the first free timer slot for a timer that expires `timeout`
    /// ticks from now, stopped; `TimerSlotsFull` when no slot is free.
    pub fn new(k: &mut Kernel, timeout: usize) -> (r: Result<Timer>)
        requires
            old(k).wf(),
            timeout + old(k).time <= usize::MAX,
        ensures
            final(k).wf(),
            final(k).same_but_timers(*old(k)),
            final(k).timers.heap@ == old(k).timers.heap@,
            first_none(old(k).timers.timers@, MAX_TIMERS as int) < 0 ==> r is Err && r->Err_0
                == RtosError::TimerSlotsFull && final(k).timers.timers@ == old(k).timers.timers@
                && final(k).timers.generations@ == old(k).timers.generations@,
            first_none(old(k).timers.timers@, MAX_TIMERS as int) >= 0 ==> ({
                let f = first_none(old(k).timers.timers@, MAX_TIMERS as int);
                let g = next_generation(old(k).timers.generations@[f]);
                &&& r is Ok
                &&& r->Ok_0.0 == f
                &&& final(k).timers.generations@ == old(k).timers.generations@.update(f, g)
                &&& final(k).timers.timers@ == old(k).timers.timers@.update(
                    f,
                    Some(
                        TimerInner {
                            running: false,
                            timeout: (timeout + old(k).time) as usize,
                            seq: 0,
                            waiter: None,
                            generation: g,
                        },
                    ),
                )
            }),
    {
        let expire_time = timeout + k.time;
        proof {
            lemma_first_none(k.timers.timers@, MAX_TIMERS as int);
        }
        let mut i: usize = 0;
        while i < MAX_TIMERS
            invariant
                i <= MAX_TIMERS,
                k.wf(),
                *k == *old(k),
                expire_time == timeout + k.time,
                forall|j: int| 0 <= j < i ==> #[trigger] k.timers.timers@[j] is Some,
            decreases MAX_TIMERS - i,
        {
            if k.timers.timers[i].is_none() {
                proof {
                    lemma_first_none(k.timers.timers@, MAX_TIMERS as int);
                    let f = first_none(k.timers.timers@, MAX_TIMERS as int);
                    if f != i {
                        assert(k.timers.timers@[f] is None);
                    }
                }
                let g = bump_generation(k.timers.generations[i]);
                k.timers.generations.set(i, g);
                k.timers.timers.set(
                    i,
                    Some(TimerInner { running: false, timeout: expire_time, seq: 0, waiter: None, generation: g }),
                );
                return Ok(Timer(i));
            }
            i = i + 1;
        }
        Err(RtosError::TimerSlotsFull)
    }

    /// Frees every timer slot and drops every pending event.
    pub fn init(k: &mut Kernel)
        requires
            old(k).wf(),
        ensures
            final(k).wf(),
            final(k).same_but_timers(*old(k)),
            final(k).timers.heap@.len() == 0,
            forall|i: int| 0 <= i < MAX_TIMERS ==> #[trigger] final(k).timers.timers@[i] is None,
    {
        k.timers = TimerManager::new();
    }

    /// The timer's slot.
    pub fn get_id(&self) -> (r: usize)
        ensures
            r == self.0,
    {
        self.0
    }

    /// Frees the timer's slot; its pending events stop counting.
    pub fn delete(&mut self, k: &mut Kernel)
        requires
            old(k).wf(),
            old(self).0 < MAX_TIMERS,
        ensures
            final(self).0 == old(self).0,
            final(k).wf(),
            final(k).timers.generations@ == old(k).timers.generations@,
            final(k).same_but_timers(*old(k)),
            final(k).timers.heap@ == old(k).timers.heap@,
            final(k).timers.timers@ == old(k).timers.timers@.update(old(self).0 as int, None),
    {
        k.timers.timers.set(self.0, None);
    }

    /// Starts the timer: bumps its sequence number, forgets its waiter and
    /// queues an expiry event; `TimerNotFound` when the slot is free.
    pub fn start(&mut self, k: &mut Kernel) -> (r: Result<()>)
        requires
            old(k).wf(),
            old(self).0 < MAX_TIMERS,
        ensures
            final(self).0 == old(self).0,
            final(k).wf(),
            final(k).timers.generations@ == old(k).timers.generations@,
            final(k).same_but_timers(*old(k)),
            ({
                let t = old(k).timers.timers@[old(self).0 as int];
                if t is Some {
                    &&& r is Ok
                    &&& armed(final(k).timers.timers@, final(k).timers.heap@, old(self).0 as int)
                    &&& final(k).timers.timers@ == old(k).timers.timers@.update(
                        old(self).0 as int,
                        Some(TimerInner { running: true, seq: next_seq(t.unwrap().seq), waiter: None, ..t.unwrap() }),
                    )
                    &&& final(k).timers.heap@ == old(k).timers.heap@.push(
                        TimerEvent {
                            timeout: t.unwrap().timeout,
                            id: old(self).0,
                            seq: next_seq(t.unwrap().seq),
                            generation: t.unwrap().generation,
                        },
                    )
                } else {
                    &&& r is Err && r->Err_0 == RtosError::TimerNotFound
                    &&& final(k).timers == old(k).timers
                }
            }),
    {
        match k.timers.timers[self.0] {
            Some(t) => {
                let seq = bump_seq(t.seq);
                k.timers.timers.set(self.0, Some(TimerInner { running: true, seq, waiter: None, ..t }));
                k.timers.heap.push(TimerEvent { timeout: t.timeout, id: self.0, seq, generation: t.generation });
                assert(k.timers.heap@[k.timers.heap@.len() - 1] == current_event(
                    self.0 as int,
                    k.timers.timers@[self.0 as int].unwrap(),
                ));
                Ok(())
            },
            None => Err(RtosError::TimerNotFound),
        }
    }

    /// Stops the timer: bumps its sequence number, so that its pending
    /// events stop counting, and forgets its waiter; `TimerNotFound` when
    /// the slot is free.
    pub fn stop(&mut self, k: &mut Kernel) -> (r: Result<()>)
        requires
            old(k).wf(),
            old(self).0 < MAX_TIMERS,
        ensures
            final(self).0 == old(self).0,
            final(k).wf(),
            final(k).timers.generations@ == old(k).timers.generations@,
            final(k).same_but_timers(*old(k)),
            final(k).timers.heap@ == old(k).timers.heap@,
            ({
                let t = old(k).timers.timers@[old(self).0 as int];
                if t is Some {
                    &&& r is Ok
                    &&& final(k).timers.timers@ == old(k).timers.timers@.update(
                        old(self).0 as int,
                        Some(TimerInner { running: false, seq: next_seq(t.unwrap().seq), waiter: None, ..t.unwrap() }),
                    )
                } else {
                    &&& r is Err && r->Err_0 == RtosError::TimerNotFound
                    &&& final(k).timers.timers@ == old(k).timers.timers@
                }
            }),
    {
        match k.timers.timers[self.0] {
            Some(t) => {
                let seq = bump_seq(t.seq);
                k.timers.timers.set(self.0, Some(TimerInner { running: false, seq, waiter: None, ..t }));
                Ok(())
            },
            None => Err(RtosError::TimerNotFound),
        }
    }

    /// Whether the timer is in use and started.
    pub fn is_running(&self, k: &Kernel) -> (r: bool)
        requires
            k.wf(),
            self.0 < MAX_TIMERS,
        ensures
            r <==> k.timers.timers@[self.0 as int] is Some && k.timers.timers@[self.0 as int].unwrap().running,
    {
        match k.timers.timers[self.0] {
            Some(t) => t.running,
            None => false,
        }
    }

    /// Whether the timer is in use and its expiry tick has come.
    pub fn is_timeout(&self, k: &Kernel) -> (r: bool)
        requires
            k.wf(),
            self.0 < MAX_TIMERS,
        ensures
            r <==> k.timers.timers@[self.0 as int] is Some && k.time >= k.timers.timers@[self.0 as int].unwrap().timeout,
    {
        let current_time = k.time;
        match k.timers.timers[self.0] {
            Some(t) => current_time >= t.timeout,
            None => false,
        }
    }

    /// Names `task_id` as the task to wake first when the timer expires;
    /// `TimerNotFound` when the slot is free.
    pub fn set_waiter(&mut self, k: &mut Kernel, task_id: usize) -> (r: Result<()>)
        requires
            old(k).wf(),
            old(self).0 < MAX_TIMERS,
        ensures
            final(self).0 == old(self).0,
            final(k).wf(),
            final(k).timers.generations@ == old(k).timers.generations@,
            final(k).same_but_timers(*old(k)),
            final(k).timers.heap@ == old(k).timers.heap@,
            ({
                let t = old(k).timers.timers@[old(self).0 as int];
                if t is Some {
                    &&& r is Ok
                    &&& final(k).timers.timers@ == old(k).timers.timers@.update(
                        old(self).0 as int,
                        Some(TimerInner { waiter: Some(task_id), ..t.unwrap() }),
                    )
                } else {
                    &&& r is Err && r->Err_0 == RtosError::TimerNotFound
                    &&& final(k).timers.timers@ == old(k).timers.timers@
                }
            }),
    {
        match k.timers.timers[self.0] {
            Some(t) => {
                k.timers.timers.set(self.0, Some(TimerInner { waiter: Some(task_id), ..t }));
                Ok(())
            },
            None => Err(RtosError::TimerNotFound),
        }
    }

    /// Handles every pending event that has expired by the current tick:
    /// each that still counts wakes, for its timer, the waiter if that is
    /// blocked on the timer, or else every task blocked on the timer, and
    /// clears the waiter. Expired events leave the queue.
    pub fn timer_check_and_send_event(k: &mut Kernel)
        requires
            old(k).wf(),
        ensures
            final(k).wf(),
            final(k).timers.generations@ == old(k).timers.generations@,
            final(k).same_but_timers_and_tasks(*old(k)),
            ({
                let h = old(k).timers.heap@;
                let ts = old(k).timers.timers@;
                let now = old(k).time;
                let n = h.len() as int;
                &&& final(k).timers.heap@ == pending_events(h, now, n)
                &&& final(k).timers.timers@ == Seq::new(
                    MAX_TIMERS as nat,
                    |i: int| fired_timer(ts, h, now, n, i),
                )
                &&& final(k).tasks@ == Seq::new(
                    MAX_TASKS as nat,
                    |j: int| fired_tcb(old(k).tasks@, ts, h, now, n, j),
                )
            }),
    {
        let now = k.time;
        let ghost h = k.timers.heap@;
        let ghost ts = k.timers.timers@;
        let ghost tasks0 = k.tasks@;
        let mut events: Vec<TimerEvent> = Vec::new();
        std::mem::swap(&mut events, &mut k.timers.heap);
        let mut kept: Vec<TimerEvent> = Vec::new();
        proof {
            assert(k.timers.timers@ =~= Seq::new(MAX_TIMERS as nat, |i: int| fired_timer(ts, h, now, 0, i)));
            assert(k.tasks@ =~= Seq::new(MAX_TASKS as nat, |j: int| fired_tcb(tasks0, ts, h, now, 0, j)));
        }
        let mut i: usize = 0;
        while i < events.len()
            invariant
                events@ == h,
                0 <= i <= h.len(),
                now == old(k).time,
                ts == old(k).timers.timers@,
                tasks0 == old(k).tasks@,
                h == old(k).timers.heap@,
                old(k).wf(),
                k.wf(),
                k.timers.heap@.len() == 0,
                k.same_but_timers_and_tasks(*old(k)),
                kept@ == pending_events(h, now, i as int),
                forall|j: int| 0 <= j < kept@.len() ==> (#[trigger] kept@[j]).id < MAX_TIMERS
                    && kept@[j].generation <= k.timers.generations@[kept@[j].id as int],
                k.timers.generations@ == old(k).timers.generations@,
                k.timers.timers@ == Seq::new(MAX_TIMERS as nat, |x: int| fired_timer(ts, h, now, i as int, x)),
                k.tasks@ == Seq::new(MAX_TASKS as nat, |j: int| fired_tcb(tasks0, ts, h, now, i as int, j)),
            decreases h.len() - i,
        {
            let e = events[i];
            if e.timeout > now {
                kept.push(e);
                proof {
                    lemma_fire_count_step(h, ts, now, i as int);
                    assert(k.timers.timers@ =~= Seq::new(MAX_TIMERS as nat, |x: int| fired_timer(ts, h, now, i + 1, x)));
                    assert(k.tasks@ =~= Seq::new(MAX_TASKS as nat, |j: int| fired_tcb(tasks0, ts, h, now, i + 1, j)));
                }
            } else {
                Self::fire_event(k, e, Ghost(h), Ghost(ts), Ghost(tasks0), Ghost(i as int));
            }
            i = i + 1;
        }
        k.timers.heap = kept;
    }

    /// Handles the `i`-th expired event `e` of `h`.
    fn fire_event(
        k: &mut Kernel,
        e: TimerEvent,
        Ghost(h): Ghost<Seq<TimerEvent>>,
        Ghost(ts): Ghost<Seq<Option<TimerInner>>>,
        Ghost(tasks0): Ghost<Seq<Tcb>>,
        Ghost(i): Ghost<int>,
    )
        requires
            old(k).wf(),
            0 <= i < h.len(),
            h[i] == e,
            e.timeout <= old(k).time,
            e.id < MAX_TIMERS,
            ts.len() == MAX_TIMERS,
            tasks0.len() == MAX_TASKS,
            old(k).timers.timers@ == Seq::new(MAX_TIMERS as nat, |x: int| fired_timer(ts, h, old(k).time, i, x)),
            old(k).tasks@ == Seq::new(MAX_TASKS as nat, |j: int| fired_tcb(tasks0, ts, h, old(k).time, i, j)),
        ensures
            final(k).wf(),
            final(k).timers.generations@ == old(k).timers.generations@,
            final(k).same_but_timers_and_tasks(*old(k)),
            final(k).timers.heap@ == old(k).timers.heap@,
            final(k).timers.timers@ == Seq::new(MAX_TIMERS as nat, |x: int| fired_timer(ts, h, old(k).time, i + 1, x)),
            final(k).tasks@ == Seq::new(MAX_TASKS as nat, |j: int| fired_tcb(tasks0, ts, h, old(k).time, i + 1, j)),
    {
        let ghost now = k.time;
        proof {
            lemma_fire_count_step(h, ts, now, i);
            lemma_fire_count_some(h, ts, now, i, e.id as int);
        }
        let cur = k.timers.timers[e.id];
        let t = match cur {
            Some(t) => t,
            None => {
                proof {
                    assert(!valid_event(e, ts));
                    assert(k.timers.timers@ =~= Seq::new(MAX_TIMERS as nat, |x: int| fired_timer(ts, h, now, i + 1, x)));
                    assert(k.tasks@ =~= Seq::new(MAX_TASKS as nat, |j: int| fired_tcb(tasks0, ts, h, now, i + 1, j)));
                }
                return;
            },
        };
        if !(t.running && t.seq == e.seq && t.generation == e.generation) {
            proof {
                assert(!valid_event(e, ts));
                assert(k.timers.timers@ =~= Seq::new(MAX_TIMERS as nat, |x: int| fired_timer(ts, h, now, i + 1, x)));
                assert(k.tasks@ =~= Seq::new(MAX_TASKS as nat, |j: int| fired_tcb(tasks0, ts, h, now, i + 1, j)));
            }
            return;
        }
        assert(valid_event(e, ts));
        let ghost c = fire_count(h, ts, now, i, e.id as int);
        let ghost tasks_before = k.tasks@;
        let waiter = t.waiter;
        k.timers.timers.set(e.id, Some(TimerInner { waiter: None, ..t }));
        proof {
            assert(k.timers.timers@ =~= Seq::new(MAX_TIMERS as nat, |x: int| fired_timer(ts, h, now, i + 1, x)));
        }
        let timer_event = Event::Timer(e.id);
        match waiter {
            Some(task_id) => {
                proof {
                    lemma_fired_state(tasks0, ts, h, now, i, task_id as int, e.id);
                }
                if !Event::wake_task_by_id_if(k, task_id, timer_event) {
                    Event::wake_task(k, timer_event);
                    proof {
                        lemma_wake_all_step(tasks0, ts, h, now, i, e.id, tasks_before, k.tasks@);
                    }
                } else {
                    proof {
                        lemma_wake_one_step(tasks0, ts, h, now, i, e.id, task_id, tasks_before, k.tasks@);
                    }
                }
            },
            None => {
                Event::wake_task(k, timer_event);
                proof {
                    lemma_wake_all_step(tasks0, ts, h, now, i, e.id, tasks_before, k.tasks@);
                }
            },
        }
    }

    /// The time left, from the current tick, until the earliest event that
    /// still counts (0 when it is due); `None` when no event counts. Events
    /// that no longer count and would come out of the queue before it are
    /// dropped.
    pub fn get_next_timeout(k: &mut Kernel) -> (r: Option<usize>)
        requires
            old(k).wf(),
        ensures
            final(k).wf(),
            final(k).timers.generations@ == old(k).timers.generations@,
            final(k).same_but_timers(*old(k)),
            final(k).timers.timers@ == old(k).timers.timers@,
            ({
                let h = old(k).timers.heap@;
                let ts = old(k).timers.timers@;
                let m = best_valid(h, ts, h.len() as int);
                &&& final(k).timers.heap@ == lazily_cleaned(h, ts, m, h.len() as int)
                &&& r == match m {
                    None => None,
                    Some(e) => Some(
                        if e.timeout <= old(k).time {
                            0usize
                        } else {
                            (e.timeout - old(k).time) as usize
                        },
                    ),
                }
            }),
    {
        let current_time = k.time;
        let ghost h = k.timers.heap@;
        let ghost ts = k.timers.timers@;
        let mut best: Option<TimerEvent> = None;
        let mut i: usize = 0;
        while i < k.timers.heap.len()
            invariant
                k.wf(),
                *k == *old(k),
                h == k.timers.heap@,
                ts == k.timers.timers@,
                i <= h.len(),
                best == best_valid(h, ts, i as int),
            decreases h.len() - i,
        {
            let e = k.timers.heap[i];
            let valid = e.id < MAX_TIMERS && match k.timers.timers[e.id] {
                Some(t) => t.running && t.seq == e.seq && t.generation == e.generation,
                None => false,
            };
            if valid {
                let better = match best {
                    None => true,
                    Some(b) => e.timeout < b.timeout || (e.timeout == b.timeout && e.id > b.id),
                };
                if better {
                    best = Some(e);
                }
            }
            i = i + 1;
        }
        let mut events: Vec<TimerEvent> = Vec::new();
        std::mem::swap(&mut events, &mut k.timers.heap);
        let mut kept: Vec<TimerEvent> = Vec::new();
        let mut j: usize = 0;
        while j < events.len()
            invariant
                events@ == h,
                j <= h.len(),
                ts == old(k).timers.timers@,
                h == old(k).timers.heap@,
                best == best_valid(h, ts, h.len() as int),
                k.timers.timers@ == ts,
                k.timers.heap@.len() == 0,
                k.wf(),
                k.same_but_timers(*old(k)),
                old(k).wf(),
                kept@ == lazily_cleaned(h, ts, best, j as int),
                forall|x: int| 0 <= x < kept@.len() ==> (#[trigger] kept@[x]).id < MAX_TIMERS
                    && kept@[x].generation <= k.timers.generations@[kept@[x].id as int],
                k.timers.generations@ == old(k).timers.generations@,
            decreases h.len() - j,
        {
            let e = events[j];
            let valid = e.id < MAX_TIMERS && match k.timers.timers[e.id] {
                Some(t) => t.running && t.seq == e.seq && t.generation == e.generation,
                None => false,
            };
            let early = match best {
                None => true,
                Some(b) => e.timeout < b.timeout || (e.timeout == b.timeout && e.id > b.id),
            };
            if valid || !early {
                kept.push(e);
            }
            j = j + 1;
        }
        k.timers.heap = kept;
        match best {
            None => None,
            Some(e) => {
                if e.timeout <= current_time {
                    Some(0)
                } else {
                    Some(e.timeout - current_time)
                }
            },
        }
    }

    /// The timers in use, by ascending slot.
    pub fn for_each_used(k: &Kernel) -> (r: Vec<Timer>)
        requires
            k.wf(),
        ensures
            r@.map_values(|t: Timer| t.0) == used_ids(k.timers.timers@, MAX_TIMERS as int),
    {
        let mut out: Vec<Timer> = Vec::new();
        let mut i: usize = 0;
        while i < MAX_TIMERS
            invariant
                i <= MAX_TIMERS,
                k.wf(),
                out@.map_values(|t: Timer| t.0) == used_ids(k.timers.timers@, i as int),
            decreases MAX_TIMERS - i,
        {
            if k.timers.timers[i].is_some() {
                let ghost before = out@;
                out.push(Timer(i));
                assert(out@.map_values(|t: Timer| t.0) =~= before.map_values(|t: Timer| t.0).push(i));
            }
            i = i + 1;
        }
        out
    }
}

} // verus!

verus! {

/// Blocking delays.
pub struct Delay;

impl Delay {
    /// Blocks the current task for `timeout` ticks: takes a timer, starts it,
    /// names the current task its waiter and blocks that task on it. The
    /// caller then switches tasks and, once the task runs again, deletes the
    /// returned timer.
    pub fn delay(k: &mut Kernel, timeout: usize) -> (r: Result<Timer>)
        requires
            old(k).wf(),
            timeout + old(k).time <= usize::MAX,
        ensures
            final(k).wf(),
            final(k).same_but_timers_and_tasks(*old(k)),
            first_none(old(k).timers.timers@, MAX_TIMERS as int) < 0 ==> r is Err && r->Err_0
                == RtosError::TimerSlotsFull && final(k).timers.timers@ == old(k).timers.timers@
                && final(k).timers.heap@ == old(k).timers.heap@ && final(k).tasks == old(k).tasks
                && final(k).timers.generations@ == old(k).timers.generations@,
            first_none(old(k).timers.timers@, MAX_TIMERS as int) >= 0 ==> ({
                let id = first_none(old(k).timers.timers@, MAX_TIMERS as int);
                let expire = (timeout + old(k).time) as usize;
                let cur = old(k).current_task_id as int;
                let g = next_generation(old(k).timers.generations@[id]);
                &&& r is Ok
                &&& r->Ok_0.0 == id
                &&& final(k).timers.generations@ == old(k).timers.generations@.update(id, g)
                &&& final(k).timers.timers@ == old(k).timers.timers@.update(
                    id,
                    Some(
                        TimerInner {
                            running: true,
                            timeout: expire,
                            seq: 1,
                            waiter: Some(old(k).tasks@[cur].taskid),
                            generation: g,
                        },
                    ),
                )
                &&& final(k).timers.heap@ == old(k).timers.heap@.push(
                    TimerEvent { timeout: expire, id: id as usize, seq: 1, generation: g },
                )
                &&& final(k).tasks@ == set_state(old(k).tasks@, cur, TaskState::Blocked(Event::Timer(id as usize)))
            }),
    {
        let mut timer = Timer::new(k, timeout)?;
        proof {
            lemma_first_none(old(k).timers.timers@, MAX_TIMERS as int);
        }
        let _ = timer.start(k);
        let task_id = Scheduler::get_current_task(k).get_taskid(k);
        let _ = timer.set_waiter(k, task_id);
        let mut current = Scheduler::get_current_task(k);
        current.block(k, Event::Timer(timer.0));
        proof {
            let id = first_none(old(k).timers.timers@, MAX_TIMERS as int);
            let expire = (timeout + old(k).time) as usize;
            let g = next_generation(old(k).timers.generations@[id]);
            assert(k.timers.timers@ =~= old(k).timers.timers@.update(
                id,
                Some(
                    TimerInner {
                        running: true,
                        timeout: expire,
                        seq: 1,
                        waiter: Some(old(k).tasks@[old(k).current_task_id as int].taskid),
                        generation: g,
                    },
                ),
            ));
        }
        Ok(timer)
    }
}

/// A timer that is stopped never counts as fired.
proof fn lemma_stopped_fire_count(h: Seq<TimerEvent>, ts: Seq<Option<TimerInner>>, now: usize, n: int, id: int)
    requires
        0 <= id < ts.len(),
        ts[id] is Some,
        !ts[id].unwrap().running,
    ensures
        fire_count(h, ts, now, n, id) == 0,
    decreases n,
{
    if n > 0 {
        lemma_stopped_fire_count(h, ts, now, n - 1, id);
    }
}

/// A stopped timer does not fire: whatever the pending events and the time,
/// a timer check leaves its slot as it is and the tasks blocked on it
/// blocked.
pub proof fn law_stopped_timer_does_not_fire(
    tasks: Seq<Tcb>,
    ts: Seq<Option<TimerInner>>,
    h: Seq<TimerEvent>,
    now: usize,
    id: usize,
)
    requires
        id < ts.len(),
        ts[id as int] is Some,
        !ts[id as int].unwrap().running,
    ensures
        fired_timer(ts, h, now, h.len() as int, id as int) == ts[id as int],
        forall|j: int| 0 <= j < tasks.len() && tasks[j].state == TaskState::Blocked(Event::Timer(id)) ==>
            #[trigger] fired_tcb(tasks, ts, h, now, h.len() as int, j) == tasks[j],
{
    lemma_stopped_fire_count(h, ts, now, h.len() as int, id as int);
}

/// The next timeout comes from the earliest pending expiry that still
/// counts: the event chosen is one of the queued events, it counts, and no
/// counting event comes out before it; there is none exactly when no queued
/// event counts. Events of stopped or restarted timers are never chosen.
pub proof fn law_next_timeout_is_earliest(h: Seq<TimerEvent>, ts: Seq<Option<TimerInner>>, n: int)
    requires
        0 <= n <= h.len(),
    ensures
        best_valid(h, ts, n) is None <==> forall|i: int| 0 <= i < n ==> !valid_event(#[trigger] h[i], ts),
        best_valid(h, ts, n) is Some ==> {
            let b = best_valid(h, ts, n).unwrap();
            &&& valid_event(b, ts)
            &&& exists|i: int| 0 <= i < n && h[i] == b
            &&& forall|i: int| 0 <= i < n && valid_event(#[trigger] h[i], ts) ==> !key_before(h[i], b)
        },
    decreases n,
{
    if n > 0 {
        law_next_timeout_is_earliest(h, ts, n - 1);
        let b = best_valid(h, ts, n - 1);
        let e = h[n - 1];
        if valid_event(e, ts) && (b is None || key_before(e, b.unwrap())) {
            assert(h[n - 1] == e);
        } else if b is Some {
            let i0 = choose|i: int| 0 <= i < n - 1 && h[i] == b.unwrap();
            assert(0 <= i0 < n && h[i0] == b.unwrap());
        }
    }
}

/// Who a timer's expiry wakes. When the timer fires once and its waiter is
/// blocked on it, the waiter alone becomes ready and the other tasks blocked
/// on the timer stay blocked; when it fires without such a waiter, every
/// task blocked on it becomes ready.
pub proof fn law_timer_expiry_wakeup(
    tasks: Seq<Tcb>,
    ts: Seq<Option<TimerInner>>,
    h: Seq<TimerEvent>,
    now: usize,
    id: usize,
    j: int,
)
    requires
        id < MAX_TIMERS,
        0 <= j < tasks.len(),
        tasks[j].state == TaskState::Blocked(Event::Timer(id)),
        fire_count(h, ts, now, h.len() as int, id as int) >= 1,
    ensures
        fire_count(h, ts, now, h.len() as int, id as int) == 1 && directed(ts, tasks, id as int) ==> (fired_tcb(
            tasks,
            ts,
            h,
            now,
            h.len() as int,
            j,
        ).state == TaskState::Ready <==> ts[id as int].unwrap().waiter == Some(j as usize)),
        !directed(ts, tasks, id as int) ==> fired_tcb(tasks, ts, h, now, h.len() as int, j).state == TaskState::Ready,
{
}

/// An event counts only for the timer that queued it: once `new` or
/// `delay` puts a timer of the next generation in a slot, no event pending
/// from an earlier timer of that slot counts for it (as long as the slot's
/// generation has not reached `usize::MAX`, where it stays).
pub proof fn law_events_of_earlier_timers_never_count(tm: TimerManager, f: int, t: TimerInner)
    requires
        tm.wf(),
        0 <= f < MAX_TIMERS,
        tm.generations@[f] < usize::MAX,
        t.generation == next_generation(tm.generations@[f]),
    ensures
        forall|j: int|
            0 <= j < tm.heap@.len() && (#[trigger] tm.heap@[j]).id == f ==> !valid_event(
                tm.heap@[j],
                tm.timers@.update(f, Some(t)),
            ),
{
}

/// The expiry event that timer `t` in slot `i` queues when started.
pub open spec fn current_event(i: int, t: TimerInner) -> TimerEvent {
    TimerEvent { timeout: t.timeout, id: i as usize, seq: t.seq, generation: t.generation }
}

/// Whether timer `i` is started and the expiry event of its latest start
/// is pending in `h`.
pub open spec fn armed(ts: Seq<Option<TimerInner>>, h: Seq<TimerEvent>, i: int) -> bool {
    &&& 0 <= i < ts.len()
    &&& ts[i] is Some
    &&& ts[i].unwrap().running
    &&& h.contains(current_event(i, ts[i].unwrap()))
}

/// An event among the first `n` that expired at `now`, counts and belongs
/// to timer `id` makes that timer fire.
proof fn lemma_fire_count_at_least(
    h: Seq<TimerEvent>,
    ts: Seq<Option<TimerInner>>,
    now: usize,
    n: int,
    id: int,
    j: int,
)
    requires
        0 <= j < n <= h.len(),
        h[j].timeout <= now,
        h[j].id == id,
        valid_event(h[j], ts),
    ensures
        fire_count(h, ts, now, n, id) >= 1,
    decreases n,
{
    if j < n - 1 {
        lemma_fire_count_at_least(h, ts, now, n - 1, id, j);
    }
}

/// The lazy clean-up keeps every event that still counts.
proof fn lemma_cleaned_keeps_valid(
    h: Seq<TimerEvent>,
    ts: Seq<Option<TimerInner>>,
    m: Option<TimerEvent>,
    n: int,
    j: int,
)
    requires
        0 <= j < n <= h.len(),
        valid_event(h[j], ts),
    ensures
        lazily_cleaned(h, ts, m, n).contains(h[j]),
    decreases n,
{
    let p = lazily_cleaned(h, ts, m, n - 1);
    if j < n - 1 {
        lemma_cleaned_keeps_valid(h, ts, m, n - 1, j);
        let x = choose|x: int| 0 <= x < p.len() && p[x] == h[j];
        if lazily_cleaned(h, ts, m, n) != p {
            assert(lazily_cleaned(h, ts, m, n)[x] == h[j]);
        }
    } else {
        assert(lazily_cleaned(h, ts, m, n)[p.len() as int] == h[j]);
    }
}

/// A check keeps every event that has not expired.
proof fn lemma_pending_keeps_unexpired(h: Seq<TimerEvent>, now: usize, n: int, j: int)
    requires
        0 <= j < n <= h.len(),
        h[j].timeout > now,
    ensures
        pending_events(h, now, n).contains(h[j]),
    decreases n,
{
    let p = pending_events(h, now, n - 1);
    if j < n - 1 {
        lemma_pending_keeps_unexpired(h, now, n - 1, j);
        let x = choose|x: int| 0 <= x < p.len() && p[x] == h[j];
        if pending_events(h, now, n) != p {
            assert(pending_events(h, now, n)[x] == h[j]);
        }
    } else {
        assert(pending_events(h, now, n)[p.len() as int] == h[j]);
    }
}

/// A started timer whose latest expiry event is pending is counted. The
/// next timeout is no later than its expiry, and looking it up keeps the
/// timer armed. A check at or after its expiry tick fires it; a check
/// before that tick keeps it armed, so that a later check fires it.
pub proof fn law_armed_timer_counts(h: Seq<TimerEvent>, ts: Seq<Option<TimerInner>>, now: usize, i: int)
    requires
        ts.len() == MAX_TIMERS,
        armed(ts, h, i),
    ensures
        best_valid(h, ts, h.len() as int) is Some,
        best_valid(h, ts, h.len() as int).unwrap().timeout <= ts[i].unwrap().timeout,
        armed(ts, lazily_cleaned(h, ts, best_valid(h, ts, h.len() as int), h.len() as int), i),
        now >= ts[i].unwrap().timeout ==> fire_count(h, ts, now, h.len() as int, i) >= 1,
        now < ts[i].unwrap().timeout ==> armed(
            Seq::new(MAX_TIMERS as nat, |x: int| fired_timer(ts, h, now, h.len() as int, x)),
            pending_events(h, now, h.len() as int),
            i,
        ),
{
    let t = ts[i].unwrap();
    let e = current_event(i, t);
    let n = h.len() as int;
    let j = choose|j: int| 0 <= j < h.len() && h[j] == e;
    assert(valid_event(e, ts));
    law_next_timeout_is_earliest(h, ts, n);
    assert(valid_event(h[j], ts));
    lemma_cleaned_keeps_valid(h, ts, best_valid(h, ts, n), n, j);
    if now >= t.timeout {
        lemma_fire_count_at_least(h, ts, now, n, i, j);
    } else {
        lemma_pending_keeps_unexpired(h, now, n, j);
        let ts1 = Seq::new(MAX_TIMERS as nat, |x: int| fired_timer(ts, h, now, n, x));
        assert(ts1[i] == fired_timer(ts, h, now, n, i));
        assert(current_event(i, ts1[i].unwrap()) == e);
    }
}

} // verus!
