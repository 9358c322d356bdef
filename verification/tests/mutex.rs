use neon_rtos2::error::RtosError;
use neon_rtos2::kernel::scheduler::Scheduler;
use neon_rtos2::kernel::task::{Task, TaskState};
use neon_rtos2::sync::event::Event;
use neon_rtos2::sync::mutex::{Mutex, MutexTable};
use neon_rtos2::utils::kernel_init;

#[test]
#[should_panic]
fn test_mutex() {
    let mut k = kernel_init();
    let mut table = MutexTable::new();
    let mutex = Mutex::new(&mut table).unwrap();
    Task::new(&mut k, "test_mutex").unwrap();
    Task::new(&mut k, "test_mutex2").unwrap();

    Scheduler::start(&mut k);

    assert_eq!(Scheduler::get_current_task(&k).get_state(&k), TaskState::Running);
    mutex.lock(&mut table, &mut k).unwrap();
    assert_eq!(Scheduler::get_current_task(&k).get_state(&k), TaskState::Running);
    let old_task = Scheduler::get_current_task(&k);
    Scheduler::task_switch(&mut k);
    assert_eq!(old_task.get_state(&k), TaskState::Ready);

    assert_eq!(Scheduler::get_current_task(&k).get_state(&k), TaskState::Running);

    mutex.unlock(&mut table, &mut k).unwrap();
}

#[test]
fn test_mutex_lock_unlock() {
    let mut k = kernel_init();
    let mut table = MutexTable::new();
    let mutex = Mutex::new(&mut table).unwrap();
    Task::new(&mut k, "test_mutex").unwrap();
    Task::new(&mut k, "test_mutex2").unwrap();

    Scheduler::start(&mut k);

    assert_eq!(Scheduler::get_current_task(&k).get_state(&k), TaskState::Running);
    mutex.lock(&mut table, &mut k).unwrap();
    assert_eq!(Scheduler::get_current_task(&k).get_state(&k), TaskState::Running);

    mutex.unlock(&mut table, &mut k).unwrap();

    assert_eq!(Scheduler::get_current_task(&k).get_state(&k), TaskState::Running);
    Scheduler::task_switch(&mut k);

    mutex.lock(&mut table, &mut k).unwrap();
    assert_eq!(Scheduler::get_current_task(&k).get_state(&k), TaskState::Running);

    mutex.unlock(&mut table, &mut k).unwrap();
    assert_eq!(Scheduler::get_current_task(&k).get_state(&k), TaskState::Running);
}

#[test]
fn test_mutex_lock_unlock_2() {
    let mut k = kernel_init();
    let mut table = MutexTable::new();
    let mutex = Mutex::new(&mut table).unwrap();
    Task::new(&mut k, "test_mutex").unwrap();
    Task::new(&mut k, "test_mutex2").unwrap();
    Scheduler::start(&mut k);
    assert_eq!(Scheduler::get_current_task(&k).get_state(&k), TaskState::Running);
    mutex.lock(&mut table, &mut k).unwrap();
    assert_eq!(Scheduler::get_current_task(&k).get_state(&k), TaskState::Running);
    Scheduler::task_switch(&mut k);
    mutex.lock(&mut table, &mut k).unwrap();
    let old_task = Scheduler::get_current_task(&k);
    assert_eq!(old_task.get_state(&k), TaskState::Blocked(Event::Mutex(mutex.0)));
    Scheduler::task_switch(&mut k);
    assert_eq!(Scheduler::get_current_task(&k).get_state(&k), TaskState::Running);
    assert_eq!(old_task.get_state(&k), TaskState::Blocked(Event::Mutex(mutex.0)));
    mutex.unlock(&mut table, &mut k).unwrap();
    assert_eq!(Scheduler::get_current_task(&k).get_state(&k), TaskState::Running);
    assert_eq!(old_task.get_state(&k), TaskState::Ready);
    Scheduler::task_switch(&mut k);
    assert_eq!(Scheduler::get_current_task(&k).get_state(&k), TaskState::Running);
    assert_eq!(old_task.get_state(&k), TaskState::Running);
}

#[test]
fn test_mutex_guard_auto_unlock() {
    let mut k = kernel_init();
    let mut table = MutexTable::new();
    let mutex = Mutex::new(&mut table).unwrap();
    Task::new(&mut k, "guard_test").unwrap();
    Scheduler::start(&mut k);

    {
        let guard = mutex.lock_guard(&mut table, &mut k).unwrap().unwrap();
        assert!(table.slots[mutex.0].locked);
        guard.unlock(&mut table, &mut k).unwrap();
    }

    {
        let guard = mutex.lock_guard(&mut table, &mut k).unwrap();
        assert!(guard.is_some());
        guard.unwrap().unlock(&mut table, &mut k).unwrap();
    }
}

#[test]
fn test_mutex_with_lock() {
    let mut k = kernel_init();
    let mut table = MutexTable::new();
    let mutex = Mutex::new(&mut table).unwrap();
    Task::new(&mut k, "with_lock_test").unwrap();
    Scheduler::start(&mut k);

    let result = mutex.with_lock(&mut table, &mut k, || 42).unwrap().unwrap();

    assert_eq!(result, 42);

    let result2 = mutex.with_lock(&mut table, &mut k, || 100).unwrap().unwrap();
    assert_eq!(result2, 100);
}

#[test]
fn test_mutex_guard_nested_scope() {
    let mut k = kernel_init();
    let mut table = MutexTable::new();
    let mutex = Mutex::new(&mut table).unwrap();
    Task::new(&mut k, "nested_test").unwrap();
    Scheduler::start(&mut k);

    let mut value = 0;

    {
        let guard = mutex.lock_guard(&mut table, &mut k).unwrap().unwrap();
        value += 1;

        {
            value += 10;
        }

        value += 100;
        guard.unlock(&mut table, &mut k).unwrap();
    }

    assert_eq!(value, 111);
    assert!(!table.slots[mutex.0].locked);
}

#[test]
fn only_the_holder_unlocks_and_slots_run_out() {
    let mut k = kernel_init();
    let mut table = MutexTable::new();
    Task::new(&mut k, "a").unwrap();
    Task::new(&mut k, "b").unwrap();
    Scheduler::start(&mut k);
    let m = Mutex::new(&mut table).unwrap();
    assert_eq!(m, Mutex(0));
    assert_eq!(m.unlock(&mut table, &mut k), Err(RtosError::MutexNotOwned));
    assert_eq!(m.lock(&mut table, &mut k), Ok(true));
    Scheduler::task_switch(&mut k);
    assert_eq!(m.unlock(&mut table, &mut k), Err(RtosError::MutexNotOwned));
    assert_eq!(m.with_lock(&mut table, &mut k, || 1), Ok(None));
    for i in 1..16 {
        assert_eq!(Mutex::new(&mut table), Ok(Mutex(i)));
    }
    assert_eq!(Mutex::new(&mut table), Err(RtosError::MutexSlotsFull));
    Mutex::init(&mut table);
    assert_eq!(Mutex::new(&mut table), Ok(Mutex(0)));
}
