use neon_rtos2::kernel::scheduler::Scheduler;
use neon_rtos2::kernel::task::Task;
use neon_rtos2::sync::event::Event;
use neon_rtos2::utils::kernel_init;

#[test]
fn test_basic_task_operations() {
    let mut k = kernel_init();
    let task1 = Task::new(&mut k, "task1").unwrap();
    let task2 = Task::new(&mut k, "task2").unwrap();
    Scheduler::start(&mut k);
    assert_eq!(task1.get_name(&k), "task1");
    assert_eq!(task2.get_name(&k), "task2");
    let current_task = Scheduler::get_current_task(&k);
    assert!(current_task.get_taskid(&k) == task1.get_taskid(&k) || current_task.get_taskid(&k) == task2.get_taskid(&k));
}

#[test]
fn test_task_switching() {
    let mut k = kernel_init();
    Task::new(&mut k, "switch_task1").unwrap();
    Task::new(&mut k, "switch_task2").unwrap();
    Scheduler::start(&mut k);
    let task_id_before = Scheduler::get_current_task(&k).get_taskid(&k);
    Scheduler::task_switch(&mut k);
    let task_id_after = Scheduler::get_current_task(&k).get_taskid(&k);
    assert_ne!(task_id_before, task_id_after);
}

#[test]
fn test_multiple_tasks() {
    let mut k = kernel_init();
    let task1 = Task::new(&mut k, "multi_task1").unwrap();
    let task2 = Task::new(&mut k, "multi_task2").unwrap();
    let task3 = Task::new(&mut k, "multi_task3").unwrap();
    Scheduler::start(&mut k);
    assert_eq!(task1.get_name(&k), "multi_task1");
    assert_eq!(task2.get_name(&k), "multi_task2");
    assert_eq!(task3.get_name(&k), "multi_task3");
    let count = Task::for_each(&k).len();
    assert!(count >= 3);
}

#[test]
fn test_schedule_loop() {
    let mut k = kernel_init();
    let names = [
        "schedule_loop_task1", "schedule_loop_task2", "schedule_loop_task3", "schedule_loop_task4",
        "schedule_loop_task5", "schedule_loop_task6", "schedule_loop_task7", "schedule_loop_task8",
        "schedule_loop_task9", "schedule_loop_task10",
    ];
    let tasks: Vec<Task> = names.iter().map(|n| Task::new(&mut k, n).unwrap()).collect();
    Scheduler::start(&mut k);
    for (t, n) in tasks.iter().zip(names.iter()) {
        assert_eq!(t.get_name(&k), *n);
    }
    assert!(Scheduler::get_current_task(&k).get_taskid(&k) == tasks[0].get_taskid(&k));
    for i in 1..10 {
        Scheduler::task_switch(&mut k);
        assert_eq!(Scheduler::get_current_task(&k).get_taskid(&k), tasks[i].get_taskid(&k));
    }
    Scheduler::task_switch(&mut k);
    assert!(Scheduler::get_current_task(&k).get_taskid(&k) == tasks[0].get_taskid(&k));
}

#[test]
fn task_test_schedule_block() {
    let mut k = kernel_init();
    let names = [
        "schedule_block_task1", "schedule_block_task2", "schedule_block_task3", "schedule_block_task4",
        "schedule_block_task5", "schedule_block_task6", "schedule_block_task7", "schedule_block_task8",
        "schedule_block_task9", "schedule_block_task10",
    ];
    let mut tasks: Vec<Task> = names.iter().map(|n| Task::new(&mut k, n).unwrap()).collect();
    Scheduler::start(&mut k);
    for (t, n) in tasks.iter().zip(names.iter()) {
        assert_eq!(t.get_name(&k), *n);
    }
    assert!(Scheduler::get_current_task(&k).get_taskid(&k) == tasks[0].get_taskid(&k));
    Scheduler::task_switch(&mut k);
    assert!(Scheduler::get_current_task(&k).get_taskid(&k) == tasks[1].get_taskid(&k));
    tasks[2].block(&mut k, Event::Timer(0));
    for i in 3..10 {
        Scheduler::task_switch(&mut k);
        assert!(Scheduler::get_current_task(&k).get_taskid(&k) == tasks[i].get_taskid(&k));
    }
    Scheduler::task_switch(&mut k);
    assert!(Scheduler::get_current_task(&k).get_taskid(&k) == tasks[0].get_taskid(&k));
    Scheduler::task_switch(&mut k);
    assert!(Scheduler::get_current_task(&k).get_taskid(&k) == tasks[1].get_taskid(&k));
    tasks[2].ready(&mut k);
    Scheduler::task_switch(&mut k);
    assert!(Scheduler::get_current_task(&k).get_taskid(&k) == tasks[2].get_taskid(&k));
}
