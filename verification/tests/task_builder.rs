use neon_rtos2::kernel::task::{Priority, TaskBuilder};
use neon_rtos2::utils::kernel_init;

#[test]
fn test_task_builder_default() {
    let _k = kernel_init();
    let builder = TaskBuilder::new("test_task");
    assert_eq!(builder.name, "test_task");
    assert_eq!(builder.priority, Priority::Normal);
}

#[test]
fn test_task_builder_priority() {
    let _k = kernel_init();
    let builder = TaskBuilder::new("high_priority").priority(Priority::High);
    assert_eq!(builder.priority, Priority::High);
}

#[test]
fn test_task_builder_spawn() {
    let mut k = kernel_init();
    let task = TaskBuilder::new("spawn_test")
        .priority(Priority::High)
        .spawn(&mut k)
        .unwrap();
    assert_eq!(task.get_name(&k), "spawn_test");
    assert_eq!(task.get_priority(&k), Priority::High);
}
