use neon_rtos2::kernel::time::systick::Systick;
use neon_rtos2::runtime::executor::RunStep;
use neon_rtos2::runtime::{pending, ready, sleep, yield_now, AsyncSignal, Executor, Sleep};
use neon_rtos2::utils::kernel_init;
use std::future::Future;
use std::pin::Pin;
use std::sync::atomic::{AtomicUsize, Ordering};
use std::sync::{Arc, Mutex};
use std::task::{Context, Poll, Wake, Waker};

type BoxedTask = Pin<Box<dyn Future<Output = ()> + Send>>;

/// A waker that records the ids it was woken for.
struct WakeLog {
    id: usize,
    wakes: Arc<Mutex<Vec<usize>>>,
}

impl Wake for WakeLog {
    fn wake(self: Arc<Self>) {
        self.wakes.lock().unwrap().push(self.id);
    }
}

/// One round of the executor: poll the oldest woken future and report the
/// outcome and the wakes it caused; says whether unfinished futures remain.
fn poll_once(ex: &mut Executor<BoxedTask>) -> bool {
    if let Some(id) = ex.pop_woken_task() {
        if let Some(mut fut) = ex.take_task(id) {
            let wakes = Arc::new(Mutex::new(Vec::new()));
            let waker = Waker::from(Arc::new(WakeLog { id, wakes: wakes.clone() }));
            let mut cx = Context::from_waker(&waker);
            match fut.as_mut().poll(&mut cx) {
                Poll::Ready(()) => ex.finish_poll(id, None),
                Poll::Pending => ex.finish_poll(id, Some(fut)),
            }
            for w in wakes.lock().unwrap().iter() {
                ex.wake(*w);
            }
        }
    }
    !ex.is_empty()
}

#[test]
fn test_executor_creation() {
    let executor: Executor<BoxedTask> = Executor::new();
    assert!(executor.is_empty());
    assert_eq!(executor.pending_count(), 0);
}

#[test]
fn test_executor_spawn() {
    let mut executor: Executor<BoxedTask> = Executor::new();

    let task_id = executor.spawn(Box::pin(async {}));
    assert_eq!(task_id, 0);
    assert_eq!(executor.pending_count(), 1);

    let task_id2 = executor.spawn(Box::pin(async {}));
    assert_eq!(task_id2, 1);
    assert_eq!(executor.pending_count(), 2);
}

#[test]
fn test_executor_run_simple() {
    static COUNTER: AtomicUsize = AtomicUsize::new(0);

    let mut executor: Executor<BoxedTask> = Executor::new();

    executor.spawn(Box::pin(async {
        COUNTER.fetch_add(1, Ordering::SeqCst);
    }));

    executor.spawn(Box::pin(async {
        COUNTER.fetch_add(10, Ordering::SeqCst);
    }));

    while !executor.is_empty() {
        poll_once(&mut executor);
    }

    assert_eq!(COUNTER.load(Ordering::SeqCst), 11);
    assert!(executor.is_empty());
}

#[test]
fn test_executor_large_capacity() {
    let mut executor: Executor<BoxedTask> = Executor::new();
    let num_tasks = 100;

    static COUNTER: AtomicUsize = AtomicUsize::new(0);
    COUNTER.store(0, Ordering::SeqCst);

    for _ in 0..num_tasks {
        executor.spawn(Box::pin(async {
            COUNTER.fetch_add(1, Ordering::SeqCst);
        }));
    }

    assert_eq!(executor.pending_count(), num_tasks);

    while !executor.is_empty() {
        poll_once(&mut executor);
    }

    assert_eq!(COUNTER.load(Ordering::SeqCst), num_tasks);
    assert!(executor.is_empty());
}

struct StepFuture {
    steps: usize,
}

impl Future for StepFuture {
    type Output = ();
    fn poll(mut self: Pin<&mut Self>, cx: &mut Context<'_>) -> Poll<Self::Output> {
        if self.steps == 0 {
            Poll::Ready(())
        } else {
            self.steps -= 1;
            cx.waker().wake_by_ref();
            Poll::Pending
        }
    }
}

#[test]
fn test_executor_waker_queue() {
    let mut executor: Executor<BoxedTask> = Executor::new();
    executor.spawn(Box::pin(StepFuture { steps: 3 }));

    assert!(poll_once(&mut executor));
    assert_eq!(executor.pending_count(), 1);

    assert!(poll_once(&mut executor));

    assert!(poll_once(&mut executor));

    assert!(!poll_once(&mut executor));
    assert!(executor.is_empty());
}

struct PendingFuture(bool);

impl Future for PendingFuture {
    type Output = ();

    fn poll(mut self: Pin<&mut Self>, _cx: &mut Context<'_>) -> Poll<Self::Output> {
        if self.0 {
            Poll::Pending
        } else {
            self.0 = true;
            Poll::Pending
        }
    }
}

#[test]
fn test_poll_once_keeps_pending_state_without_new_wake() {
    let mut executor: Executor<BoxedTask> = Executor::new();
    executor.spawn(Box::pin(PendingFuture(false)));

    assert!(poll_once(&mut executor));
    assert_eq!(executor.pending_count(), 1);

    assert!(poll_once(&mut executor));
    assert_eq!(executor.pending_count(), 1);
    assert!(!executor.is_empty());
}

#[test]
fn a_queued_task_is_queued_once() {
    let mut executor: Executor<u8> = Executor::new();
    assert_eq!(executor.spawn(7), 0);
    executor.wake(0);
    executor.wake(5);
    executor.wake(5);
    assert_eq!(executor.pop_woken_task(), Some(0));
    assert_eq!(executor.pop_woken_task(), Some(5));
    assert_eq!(executor.pop_woken_task(), None);
    assert_eq!(executor.take_task(0), Some(7));
    assert_eq!(executor.take_task(0), None);
    assert_eq!(executor.take_task(9), None);
    executor.finish_poll(0, Some(8));
    assert_eq!(executor.take_task(0), Some(8));
    executor.finish_poll(0, None);
    assert!(executor.is_empty());
}

#[test]
fn test_sleep_creation() {
    let k = kernel_init();

    let sleep = Sleep::new(&k, 100);
    assert!(!sleep.is_elapsed(&k));
    assert!(sleep.remaining(&k) <= 100);
}

#[test]
fn test_sleep_elapsed() {
    let mut k = kernel_init();

    let sleep = Sleep::new(&k, 50);
    Systick::add_current_time(&mut k, 100);

    assert!(sleep.is_elapsed(&k));
    assert_eq!(sleep.remaining(&k), 0);
}

#[test]
fn sleep_poll_registers_once_then_completes() {
    let mut k = kernel_init();
    Systick::add_current_time(&mut k, 10);
    let mut s = sleep(&k, 5);
    assert_eq!(s.deadline, 15);
    assert_eq!(s.remaining(&k), 5);
    assert!(!s.poll(12));
    assert!(s.registered);
    assert!(!s.poll(14));
    assert!(s.poll(15));
}

#[test]
fn test_ready_future() {
    let mut future = ready(42);
    assert_eq!(future.poll(), 42, "Ready should be immediately ready");
    assert!(future.value.is_none());
}

#[test]
fn test_yield_future() {
    let mut future = yield_now();

    assert!(!future.poll(), "First poll should be Pending");
    assert!(future.poll(), "Second poll should be Ready");
}

#[test]
fn pending_is_never_ready() {
    let mut p = pending::<u8>();
    assert!(!p.poll());
    assert!(!p.poll());
}

#[test]
fn test_async_signal_basic() {
    let mut signal: AsyncSignal<usize> = AsyncSignal::new();

    assert_eq!(signal.count(), 0);
    assert!(!signal.try_wait());

    signal.signal();
    assert_eq!(signal.count(), 1);
    assert!(signal.try_wait());
    assert_eq!(signal.count(), 0);
}

#[test]
fn test_async_signal_multiple() {
    let mut signal: AsyncSignal<usize> = AsyncSignal::new();

    signal.signal_n(5);
    assert_eq!(signal.count(), 5);

    for _ in 0..5 {
        assert!(signal.try_wait());
    }
    assert!(!signal.try_wait());
}

#[test]
fn signals_hand_out_waiters_oldest_first() {
    let mut signal: AsyncSignal<&'static str> = AsyncSignal::new();
    assert!(!signal.poll_wait("a"));
    assert!(!signal.poll_wait("b"));
    assert!(!signal.poll_wait("c"));
    assert_eq!(signal.signal(), Some("a"));
    assert_eq!(signal.signal_n(5), vec!["b", "c"]);
    assert_eq!(signal.count(), 6);
    assert!(signal.poll_wait("d"));
    assert_eq!(signal.count(), 5);
    assert_eq!(signal.signal(), None);
}

#[test]
fn the_run_loop_polls_again_finishes_or_blocks_the_host() {
    let mut ex: Executor<u8> = Executor::new();
    assert_eq!(ex.run_step(true), RunStep::PollAgain);
    assert_eq!(ex.run_step(false), RunStep::Finish);
    ex.spawn(7);
    assert_eq!(ex.run_step(false), RunStep::BlockHost);
    assert_eq!(ex.run_step(true), RunStep::PollAgain);
}
