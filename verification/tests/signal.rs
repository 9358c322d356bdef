use neon_rtos2::kernel::scheduler::Scheduler;
use neon_rtos2::kernel::task::{Task, TaskState};
use neon_rtos2::sync::event::Event;
use neon_rtos2::sync::signal::{Signal, SignalIds};
use neon_rtos2::utils::kernel_init;

#[test]
fn test_signal() {
    let mut k = kernel_init();
    let signal = Signal::new();
    let task = Task::new(&mut k, "test_signal").unwrap();
    Scheduler::start(&mut k);
    signal.wait(&mut k);
    assert_eq!(task.get_state(&k), TaskState::Blocked(Event::Signal(signal.id)));
    signal.send(&mut k);
    assert_eq!(task.get_state(&k), TaskState::Ready);
    Scheduler::task_switch(&mut k);
    assert_eq!(task.get_state(&k), TaskState::Running);
}

#[test]
fn signals_open_with_fresh_ids_once() {
    let mut ids = SignalIds::new();
    let mut a = Signal::new();
    let mut b = Signal::new();
    a.open(&mut ids);
    b.open(&mut ids);
    a.open(&mut ids);
    assert_eq!(a.id, 0);
    assert_eq!(b.id, 1);
    assert_eq!(ids.next, 2);
}
