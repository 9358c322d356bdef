use neon_rtos2::config::MAX_TIMERS;
use neon_rtos2::error::RtosError;
use neon_rtos2::kernel::scheduler::Scheduler;
use neon_rtos2::kernel::task::{Task, TaskState};
use neon_rtos2::kernel::time::systick::Systick;
use neon_rtos2::kernel::time::timer::{Delay, Timer};
use neon_rtos2::sync::event::Event;
use neon_rtos2::utils::kernel_init;

#[test]
fn timer_test_timer_for_each() {
    let mut k = kernel_init();
    let mut timer1 = Timer::new(&mut k, 1000).unwrap();
    let mut timer2 = Timer::new(&mut k, 2000).unwrap();
    timer1.start(&mut k).unwrap();
    timer2.start(&mut k).unwrap();
    assert_eq!(timer1.is_running(&k), true);
    assert_eq!(timer2.is_running(&k), true);
    Systick::add_current_time(&mut k, 1000);
    for mut timer in Timer::for_each_used(&k) {
        let id = timer.get_id();
        assert_eq!(id, 0);
        assert_eq!(timer.get_id(), 0);
        assert_eq!(timer.is_running(&k), true);
        if timer.is_timeout(&k) {
            assert_eq!(timer.is_running(&k), true);
            assert_eq!(timer.get_id(), 0);
            timer.delete(&mut k);
            break;
        }
    }
    Systick::add_current_time(&mut k, 1000);
    for mut timer in Timer::for_each_used(&k) {
        assert_eq!(timer.is_running(&k), true);
        if timer.is_timeout(&k) {
            assert_eq!(timer.is_running(&k), true);
            assert_eq!(timer.get_id(), 1);
            timer.delete(&mut k);
            break;
        }
    }
}

#[test]
fn test_timer_slots_full() {
    let mut k = kernel_init();
    let mut timers = Vec::new();
    for i in 0..MAX_TIMERS {
        let timer = Timer::new(&mut k, 1000 * i);
        assert!(timer.is_ok(), "Timer {} should be created successfully", i);
        timers.push(timer.unwrap());
    }
    let result = Timer::new(&mut k, 1000);
    assert_eq!(result.err().map(|_| RtosError::TimerSlotsFull), Some(RtosError::TimerSlotsFull));
    assert!(matches!(Timer::new(&mut k, 1000), Err(RtosError::TimerSlotsFull)));
}

#[test]
fn test_timer_start_stop() {
    let mut k = kernel_init();
    let mut timer = Timer::new(&mut k, 1000).unwrap();
    assert_eq!(timer.is_running(&k), false);
    timer.start(&mut k).unwrap();
    assert_eq!(timer.is_running(&k), true);
    timer.stop(&mut k).unwrap();
    assert_eq!(timer.is_running(&k), false);
}

#[test]
fn test_timer_timeout() {
    let mut k = kernel_init();
    let mut timer = Timer::new(&mut k, 500).unwrap();
    timer.start(&mut k).unwrap();
    assert_eq!(timer.is_timeout(&k), false);
    Systick::add_current_time(&mut k, 500);
    assert_eq!(timer.is_timeout(&k), true);
}

#[test]
fn test_timer_min_heap_ordering() {
    let mut k = kernel_init();
    let mut t1 = Timer::new(&mut k, 300).unwrap();
    let mut t2 = Timer::new(&mut k, 100).unwrap();
    let mut t3 = Timer::new(&mut k, 200).unwrap();
    t1.start(&mut k).unwrap();
    t2.start(&mut k).unwrap();
    t3.start(&mut k).unwrap();
    assert_eq!(Timer::get_next_timeout(&mut k), Some(100));
    Systick::add_current_time(&mut k, 100);
    Timer::timer_check_and_send_event(&mut k);
    assert_eq!(Timer::get_next_timeout(&mut k), Some(100));
    Systick::add_current_time(&mut k, 100);
    Timer::timer_check_and_send_event(&mut k);
    assert_eq!(Timer::get_next_timeout(&mut k), Some(100));
}

#[test]
fn test_timer_lazy_deletion() {
    let mut k = kernel_init();
    let mut t1 = Timer::new(&mut k, 100).unwrap();
    let mut t2 = Timer::new(&mut k, 200).unwrap();
    t1.start(&mut k).unwrap();
    t2.start(&mut k).unwrap();
    assert_eq!(Timer::get_next_timeout(&mut k), Some(100));
    t1.stop(&mut k).unwrap();
    assert_eq!(Timer::get_next_timeout(&mut k), Some(200));
}

#[test]
fn test_timer_directed_wakeup() {
    let mut k = kernel_init();
    let mut task = Task::new(&mut k, "timer_waiter").unwrap();
    let mut timer = Timer::new(&mut k, 100).unwrap();
    timer.start(&mut k).unwrap();
    Scheduler::start(&mut k);
    let current_id = Scheduler::get_current_task(&k).get_taskid(&k);
    if task.get_taskid(&k) != current_id {
        let waiter_id = task.get_taskid(&k);
        timer.set_waiter(&mut k, waiter_id).unwrap();
        task.block(&mut k, Event::Timer(timer.get_id()));
        Systick::add_current_time(&mut k, 100);
        Timer::timer_check_and_send_event(&mut k);
        assert_eq!(task.get_state(&k), TaskState::Ready);
    }
}

#[test]
fn directed_wakeup_wakes_only_the_waiter() {
    let mut k = kernel_init();
    let mut a = Task::new(&mut k, "a").unwrap();
    let mut b = Task::new(&mut k, "b").unwrap();
    let mut timer = Timer::new(&mut k, 10).unwrap();
    timer.start(&mut k).unwrap();
    timer.set_waiter(&mut k, 1).unwrap();
    a.block(&mut k, Event::Timer(0));
    b.block(&mut k, Event::Timer(0));
    Systick::add_current_time(&mut k, 10);
    Timer::timer_check_and_send_event(&mut k);
    assert_eq!(a.get_state(&k), TaskState::Blocked(Event::Timer(0)));
    assert_eq!(b.get_state(&k), TaskState::Ready);
    assert_eq!(Timer::get_next_timeout(&mut k), None);
}

#[test]
fn expiry_without_waiter_wakes_every_blocked_task() {
    let mut k = kernel_init();
    let mut a = Task::new(&mut k, "a").unwrap();
    let mut b = Task::new(&mut k, "b").unwrap();
    let mut timer = Timer::new(&mut k, 10).unwrap();
    timer.start(&mut k).unwrap();
    a.block(&mut k, Event::Timer(0));
    b.block(&mut k, Event::Timer(0));
    Systick::add_current_time(&mut k, 9);
    Timer::timer_check_and_send_event(&mut k);
    assert_eq!(a.get_state(&k), TaskState::Blocked(Event::Timer(0)));
    assert_eq!(Timer::get_next_timeout(&mut k), Some(1));
    Systick::add_current_time(&mut k, 1);
    assert_eq!(Timer::get_next_timeout(&mut k), Some(0));
    Timer::timer_check_and_send_event(&mut k);
    assert_eq!(a.get_state(&k), TaskState::Ready);
    assert_eq!(b.get_state(&k), TaskState::Ready);
}

#[test]
fn stopped_timer_does_not_fire() {
    let mut k = kernel_init();
    let mut a = Task::new(&mut k, "a").unwrap();
    let mut timer = Timer::new(&mut k, 5).unwrap();
    timer.start(&mut k).unwrap();
    a.block(&mut k, Event::Timer(0));
    timer.stop(&mut k).unwrap();
    Systick::add_current_time(&mut k, 5);
    Timer::timer_check_and_send_event(&mut k);
    assert_eq!(a.get_state(&k), TaskState::Blocked(Event::Timer(0)));
}

#[test]
fn deleted_timer_reports_not_found() {
    let mut k = kernel_init();
    let mut timer = Timer::new(&mut k, 5).unwrap();
    timer.delete(&mut k);
    assert!(matches!(timer.start(&mut k), Err(RtosError::TimerNotFound)));
    assert!(matches!(timer.stop(&mut k), Err(RtosError::TimerNotFound)));
    assert!(matches!(timer.set_waiter(&mut k, 0), Err(RtosError::TimerNotFound)));
    assert!(!timer.is_running(&k));
    assert!(!timer.is_timeout(&k));
    Timer::init(&mut k);
    assert_eq!(Timer::for_each_used(&k).len(), 0);
}

#[test]
fn delay_blocks_the_current_task_on_a_timer() {
    let mut k = kernel_init();
    Task::new(&mut k, "a").unwrap();
    Task::new(&mut k, "b").unwrap();
    Scheduler::start(&mut k);
    let mut timer = Delay::delay(&mut k, 20).unwrap();
    assert_eq!(Task(0).get_state(&k), TaskState::Blocked(Event::Timer(timer.get_id())));
    Scheduler::task_switch(&mut k);
    assert_eq!(Scheduler::get_current_task(&k), Task(1));
    Systick::add_current_time(&mut k, 20);
    Timer::timer_check_and_send_event(&mut k);
    assert_eq!(Task(0).get_state(&k), TaskState::Ready);
    timer.delete(&mut k);
}

#[test]
fn systick_counts_ticks() {
    let mut k = kernel_init();
    Systick::systick_inc(&mut k);
    Systick::systick_inc(&mut k);
    assert_eq!(Systick::get_current_time(&k), 2);
    assert_eq!(Systick::add_current_time(&mut k, 8), 10);
    Systick::init(&mut k);
    assert_eq!(Systick::get_current_time(&k), 0);
}

#[test]
fn test_timer_wait_and_start() {
    let mut k = kernel_init();
    let task = Task::new(&mut k, "test_timer_wait_and_start").unwrap();
    Scheduler::start(&mut k);
    let _timer = Delay::delay(&mut k, 1000).unwrap();
    assert_eq!(task.get_state(&k), TaskState::Blocked(Event::Timer(0)));
    Systick::add_current_time(&mut k, 1000);
    Timer::timer_check_and_send_event(&mut k);
    assert_eq!(task.get_state(&k), TaskState::Ready);
    Scheduler::task_switch(&mut k);
    assert_eq!(task.get_state(&k), TaskState::Running);
}

#[test]
fn a_deleted_timers_event_does_not_count_for_the_next_timer() {
    let mut k = kernel_init();
    let mut old = Timer::new(&mut k, 100).unwrap();
    old.start(&mut k).unwrap();
    old.delete(&mut k);
    let mut new = Timer::new(&mut k, 500).unwrap();
    assert_eq!(new.get_id(), old.get_id());
    new.start(&mut k).unwrap();
    assert_eq!(Timer::get_next_timeout(&mut k), Some(500));

    let mut waiter = Task::new(&mut k, "w").unwrap();
    Scheduler::start(&mut k);
    let waiter_id = waiter.get_taskid(&k);
    new.set_waiter(&mut k, waiter_id).unwrap();
    waiter.block(&mut k, Event::Timer(new.get_id()));
    Systick::add_current_time(&mut k, 100);
    Timer::timer_check_and_send_event(&mut k);
    assert_eq!(waiter.get_state(&k), TaskState::Blocked(Event::Timer(new.get_id())));
    Systick::add_current_time(&mut k, 400);
    Timer::timer_check_and_send_event(&mut k);
    assert_eq!(waiter.get_state(&k), TaskState::Ready);
}

#[test]
fn a_started_timer_stays_counted_until_its_expiry_tick() {
    let mut k = kernel_init();
    let mut t = Timer::new(&mut k, 300).unwrap();
    t.start(&mut k).unwrap();
    let mut task = Task::new(&mut k, "w").unwrap();
    Scheduler::start(&mut k);
    task.block(&mut k, Event::Timer(t.get_id()));
    for _ in 0..299 {
        Systick::systick_inc(&mut k);
        Timer::timer_check_and_send_event(&mut k);
        assert_eq!(task.get_state(&k), TaskState::Blocked(Event::Timer(t.get_id())));
        assert_eq!(Timer::get_next_timeout(&mut k), Some(300 - Systick::get_current_time(&k)));
    }
    Systick::systick_inc(&mut k);
    Timer::timer_check_and_send_event(&mut k);
    assert_eq!(task.get_state(&k), TaskState::Ready);
}
