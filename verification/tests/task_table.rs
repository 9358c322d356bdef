use neon_rtos2::config::{MAX_TASKS, STACK_SIZE};
use neon_rtos2::error::RtosError;
use neon_rtos2::kernel::task::{Priority, Task, TaskState};
use neon_rtos2::sync::event::Event;
use neon_rtos2::utils::kernel_init;

#[test]
fn test_task() {
    let mut k = kernel_init();
    let task1 = Task::new(&mut k, "task1").unwrap();
    let task2 = Task::new(&mut k, "task2").unwrap();
    assert_eq!(task1.get_state(&k), TaskState::Ready);
    assert_eq!(task2.get_state(&k), TaskState::Ready);
    assert_eq!(task1.get_name(&k), "task1");
    assert_eq!(task2.get_name(&k), "task2");
    assert_eq!(task1.get_taskid(&k), 0);
    assert_eq!(task2.get_taskid(&k), 1);
    assert_eq!(task1.get_stack_top(&k) & !(0x0007), task1.get_stack_top(&k));
    assert_eq!(task2.get_stack_top(&k) & !(0x0007), task2.get_stack_top(&k));
}

#[test]
#[should_panic]
fn test_task_overflow() {
    let mut k = kernel_init();
    for _ in 0..MAX_TASKS + 1 {
        Task::new(&mut k, "task").unwrap();
    }
}

#[test]
fn test_task_state() {
    let mut k = kernel_init();
    let mut task = Task::new(&mut k, "task").unwrap();
    task.run(&mut k);
    assert_eq!(task.get_state(&k), TaskState::Running);
    task.block(&mut k, Event::Signal(1));
    assert_eq!(task.get_state(&k), TaskState::Blocked(Event::Signal(1)));
    task.ready(&mut k);
    assert_eq!(task.get_state(&k), TaskState::Ready);
}

#[test]
fn test_task_for_each_from() {
    let mut k = kernel_init();
    Task::new(&mut k, "task1").unwrap();
    Task::new(&mut k, "task2").unwrap();
    let order = Task::for_each_from(&k, 0);
    assert_eq!(order.len(), 2);
    assert_eq!(order[0].get_name(&k), "task1");
    assert_eq!(order[0].0, 0);
    assert_eq!(order[1].get_name(&k), "task2");
    assert_eq!(order[1].0, 1);
    let order = Task::for_each_from(&k, 1);
    assert_eq!(order[0].get_name(&k), "task2");
    assert_eq!(order[0].0, 1);
    assert_eq!(order[1].get_name(&k), "task1");
    assert_eq!(order[1].0, 0);
}

#[test]
fn test_task_for_each() {
    let mut k = kernel_init();
    Task::new(&mut k, "task1").unwrap();
    Task::new(&mut k, "task2").unwrap();
    let all = Task::for_each(&k);
    assert_eq!(all.len(), 2);
    assert_eq!(all[0].get_name(&k), "task1");
    assert_eq!(all[0].0, 0);
    assert_eq!(all[1].get_name(&k), "task2");
    assert_eq!(all[1].0, 1);
}

#[test]
fn task_slots_full_is_an_error() {
    let mut k = kernel_init();
    for i in 0..MAX_TASKS {
        assert_eq!(Task::new(&mut k, "t").unwrap().0, i);
    }
    assert_eq!(Task::new(&mut k, "t"), Err(RtosError::TaskSlotsFull));
}

#[test]
fn task_new_reuses_the_first_free_slot() {
    let mut k = kernel_init();
    Task::new(&mut k, "a").unwrap();
    Task::new(&mut k, "b").unwrap();
    Task::init(&mut k);
    let t = Task::new(&mut k, "c").unwrap();
    assert_eq!(t.0, 0);
    assert_eq!(t.get_stack_top(&k), STACK_SIZE);
    assert_eq!(t.get_priority(&k), Priority::Normal);
}

#[test]
fn task_setters_change_one_field() {
    let mut k = kernel_init();
    let mut t = Task::new(&mut k, "a").unwrap();
    t.set_priority(&mut k, Priority::Critical);
    t.set_stack_top(&mut k, 4096);
    assert_eq!(t.get_priority(&k), Priority::Critical);
    assert_eq!(t.get_stack_top(&k), 4096);
    assert_eq!(t.get_state(&k), TaskState::Ready);
    assert_eq!(t.get_name(&k), "a");
}
