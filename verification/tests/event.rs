use neon_rtos2::kernel::scheduler::Scheduler;
use neon_rtos2::kernel::task::{Task, TaskState};
use neon_rtos2::sync::event::Event;
use neon_rtos2::utils::kernel_init;

#[test]
fn event_test_event() {
    let mut k = kernel_init();
    let mut task1 = Task::new(&mut k, "task1").unwrap();
    let mut task2 = Task::new(&mut k, "task2").unwrap();
    let mut task3 = Task::new(&mut k, "task3").unwrap();
    let mut task4 = Task::new(&mut k, "task4").unwrap();
    let mut task5 = Task::new(&mut k, "task5").unwrap();
    Scheduler::start(&mut k);
    let current = Scheduler::get_current_task(&k);
    if current.get_taskid(&k) != task1.get_taskid(&k) {
        task1.block(&mut k, Event::Signal(1));
    }
    if current.get_taskid(&k) != task2.get_taskid(&k) {
        task2.block(&mut k, Event::Signal(2));
    }
    if current.get_taskid(&k) != task3.get_taskid(&k) {
        task3.block(&mut k, Event::Signal(3));
    }
    if current.get_taskid(&k) != task4.get_taskid(&k) {
        task4.block(&mut k, Event::Signal(4));
    }
    if current.get_taskid(&k) != task5.get_taskid(&k) {
        task5.block(&mut k, Event::Signal(5));
    }
    Event::wake_task(&mut k, Event::Signal(2));
    assert_eq!(task2.get_state(&k), TaskState::Ready);
    Scheduler::stop(&mut k);
}

#[test]
fn test_wake_task_with_no_blocked_tasks() {
    let mut k = kernel_init();
    Task::new(&mut k, "wake_test1").unwrap();
    Task::new(&mut k, "wake_test2").unwrap();
    Event::wake_task(&mut k, Event::Signal(99));
    let ready_count = Task::for_each(&k).iter().filter(|t| t.get_state(&k) == TaskState::Ready).count();
    assert_eq!(ready_count, 2);
}

#[test]
fn test_multiple_blocked_same_event() {
    let mut k = kernel_init();
    let mut task1 = Task::new(&mut k, "same_event1").unwrap();
    let mut task2 = Task::new(&mut k, "same_event2").unwrap();
    let mut task3 = Task::new(&mut k, "same_event3").unwrap();
    Scheduler::start(&mut k);
    let current_id = Scheduler::get_current_task(&k).get_taskid(&k);
    for t in [&mut task1, &mut task2, &mut task3] {
        if t.get_taskid(&k) != current_id {
            t.block(&mut k, Event::Signal(5));
        }
    }
    Event::wake_task(&mut k, Event::Signal(5));
    for t in [&task1, &task2, &task3] {
        if t.get_taskid(&k) != current_id {
            assert_eq!(t.get_state(&k), TaskState::Ready);
        }
    }
}

#[test]
fn event_test_different_event_types() {
    let mut k = kernel_init();
    let mut task1 = Task::new(&mut k, "diff_event1").unwrap();
    let mut task2 = Task::new(&mut k, "diff_event2").unwrap();
    let mut task3 = Task::new(&mut k, "diff_event3").unwrap();
    Scheduler::start(&mut k);
    let current_id = Scheduler::get_current_task(&k).get_taskid(&k);
    if task1.get_taskid(&k) != current_id {
        task1.block(&mut k, Event::Signal(1));
    }
    if task2.get_taskid(&k) != current_id {
        task2.block(&mut k, Event::Timer(1));
    }
    if task3.get_taskid(&k) != current_id {
        task3.block(&mut k, Event::Mutex(1));
    }
    Event::wake_task(&mut k, Event::Signal(1));
    if task1.get_taskid(&k) != current_id {
        assert_eq!(task1.get_state(&k), TaskState::Ready);
    }
    if task2.get_taskid(&k) != current_id {
        assert_eq!(task2.get_state(&k), TaskState::Blocked(Event::Timer(1)));
    }
    if task3.get_taskid(&k) != current_id {
        assert_eq!(task3.get_state(&k), TaskState::Blocked(Event::Mutex(1)));
    }
}

#[test]
fn wake_task_by_id_if_checks_the_event() {
    let mut k = kernel_init();
    let mut t = Task::new(&mut k, "a").unwrap();
    t.block(&mut k, Event::Mq(3));
    assert!(!Event::wake_task_by_id_if(&mut k, 0, Event::Mq(4)));
    assert_eq!(t.get_state(&k), TaskState::Blocked(Event::Mq(3)));
    assert!(!Event::wake_task_by_id_if(&mut k, 99, Event::Mq(3)));
    assert!(Event::wake_task_by_id_if(&mut k, 0, Event::Mq(3)));
    assert_eq!(t.get_state(&k), TaskState::Ready);
}

#[test]
fn wake_task_by_id_wakes_any_blocked_task() {
    let mut k = kernel_init();
    let mut t = Task::new(&mut k, "a").unwrap();
    t.run(&mut k);
    Event::wake_task_by_id(&mut k, 0);
    assert_eq!(t.get_state(&k), TaskState::Running);
    t.block(&mut k, Event::Async(0));
    Event::wake_task_by_id(&mut k, 0);
    assert_eq!(t.get_state(&k), TaskState::Ready);
}
