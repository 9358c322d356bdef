use neon_rtos2::config::MAX_MQS;
use neon_rtos2::error::{Result, RtosError};
use neon_rtos2::ipc::queue::Mq;
use neon_rtos2::kernel::scheduler::Scheduler;
use neon_rtos2::kernel::task::{Task, TaskState};
use neon_rtos2::sync::event::Event;
use neon_rtos2::utils::kernel_init;

#[test]
fn queue_test_mq() {
    let mut k = kernel_init();
    let mut mq: Mq<u32, 10> = Mq::<u32, 10>::new(&mut k).unwrap();
    for i in 1..=10 {
        assert_eq!(mq.push(&mut k, i), true);
    }
    assert_eq!(mq.push(&mut k, 11), false);
    for i in 1..=10 {
        assert_eq!(mq.pop(&mut k), Some(i));
    }
    assert_eq!(mq.pop(&mut k), None);
}

#[test]
fn queue_test_mq_multi_task() {
    let mut k = kernel_init();
    let mut mq: Mq<u32, 10> = Mq::<u32, 10>::new(&mut k).unwrap();
    Task::new(&mut k, "task1").unwrap();
    Task::new(&mut k, "task2").unwrap();
    Scheduler::start(&mut k);
    mq.push(&mut k, 1);
    mq.push(&mut k, 2);
    Scheduler::task_switch(&mut k);
    assert_eq!(mq.pop(&mut k), Some(1));
    assert_eq!(mq.pop(&mut k), Some(2));
}

#[test]
fn queue_test_mq_multi_task_push_pop() {
    let mut k = kernel_init();
    let mut mq: Mq<u32, 10> = Mq::<u32, 10>::new(&mut k).unwrap();
    Task::new(&mut k, "task1").unwrap();
    Task::new(&mut k, "task2").unwrap();
    Scheduler::start(&mut k);
    mq.push(&mut k, 1);
    mq.push(&mut k, 2);
    Scheduler::task_switch(&mut k);
    assert_eq!(mq.pop(&mut k), Some(1));
    assert_eq!(mq.pop(&mut k), Some(2));
}

#[test]
fn test_mq_len_and_empty() {
    let mut k = kernel_init();
    let mut mq: Mq<u32, 5> = Mq::<u32, 5>::new(&mut k).unwrap();
    assert_eq!(mq.len(), 0);
    assert!(mq.is_empty());
    assert!(!mq.is_full());
    mq.push(&mut k, 1);
    mq.push(&mut k, 2);
    assert_eq!(mq.len(), 2);
    assert!(!mq.is_empty());
    assert!(!mq.is_full());
    mq.push(&mut k, 3);
    mq.push(&mut k, 4);
    mq.push(&mut k, 5);
    assert_eq!(mq.len(), 5);
    assert!(mq.is_full());
}

#[test]
fn test_mq_slots_full() {
    let mut k = kernel_init();
    let mut queues = Vec::new();
    for i in 0..MAX_MQS {
        let mq: Result<Mq<u32, 4>> = Mq::new(&mut k);
        assert!(mq.is_ok(), "Mq {} should be created successfully", i);
        queues.push(mq.unwrap());
    }
    let result: Result<Mq<u32, 4>> = Mq::new(&mut k);
    assert_eq!(result.err(), Some(RtosError::QueueFull));
}

#[test]
fn test_mq_push_wakes_one_waiting_receiver() {
    let mut k = kernel_init();
    let mut mq: Mq<u32, 2> = Mq::new(&mut k).unwrap();
    let mut receiver1 = Task::new(&mut k, "receiver1").unwrap();
    let mut receiver2 = Task::new(&mut k, "receiver2").unwrap();
    mq.register_receiver_waiter(receiver1.get_taskid(&k)).unwrap();
    mq.register_receiver_waiter(receiver2.get_taskid(&k)).unwrap();
    receiver1.block(&mut k, Event::Mq(mq.id()));
    receiver2.block(&mut k, Event::Mq(mq.id()));
    assert!(mq.push(&mut k, 7));
    assert_eq!(receiver1.get_state(&k), TaskState::Ready);
    assert_eq!(receiver2.get_state(&k), TaskState::Blocked(Event::Mq(mq.id())));
}

#[test]
fn test_mq_pop_wakes_one_waiting_sender() {
    let mut k = kernel_init();
    let mut mq: Mq<u32, 1> = Mq::new(&mut k).unwrap();
    let mut sender1 = Task::new(&mut k, "sender1").unwrap();
    let mut sender2 = Task::new(&mut k, "sender2").unwrap();
    assert!(mq.push(&mut k, 11));
    mq.register_sender_waiter(sender1.get_taskid(&k)).unwrap();
    mq.register_sender_waiter(sender2.get_taskid(&k)).unwrap();
    sender1.block(&mut k, Event::Mq(mq.id()));
    sender2.block(&mut k, Event::Mq(mq.id()));
    assert_eq!(mq.pop(&mut k), Some(11));
    assert_eq!(sender1.get_state(&k), TaskState::Ready);
    assert_eq!(sender2.get_state(&k), TaskState::Blocked(Event::Mq(mq.id())));
}

#[test]
fn push_wait_blocks_the_current_task_when_full() {
    let mut k = kernel_init();
    let mut mq: Mq<u8, 1> = Mq::new(&mut k).unwrap();
    Task::new(&mut k, "a").unwrap();
    Task::new(&mut k, "b").unwrap();
    Scheduler::start(&mut k);
    assert_eq!(mq.push_wait(&mut k, 1), Ok(true));
    assert_eq!(mq.push_wait(&mut k, 2), Ok(false));
    assert_eq!(Task(0).get_state(&k), TaskState::Blocked(Event::Mq(mq.id())));
    Scheduler::task_switch(&mut k);
    assert_eq!(mq.pop_wait(&mut k), Ok(Some(1)));
    assert_eq!(Task(0).get_state(&k), TaskState::Ready);
    assert_eq!(mq.pop_wait(&mut k), Ok(None));
    assert_eq!(Task(1).get_state(&k), TaskState::Blocked(Event::Mq(mq.id())));
}

#[test]
fn zero_capacity_queue_is_always_full() {
    let mut k = kernel_init();
    let mut mq: Mq<u8, 0> = Mq::new(&mut k).unwrap();
    assert!(mq.is_full());
    assert!(mq.is_empty());
    assert!(!mq.push(&mut k, 1));
    assert_eq!(mq.pop(&mut k), None);
}

#[test]
fn mq_init_frees_every_id() {
    let mut k = kernel_init();
    let a: Mq<u8, 2> = Mq::new(&mut k).unwrap();
    assert_eq!(a.id(), 0);
    Mq::<u8, 2>::init(&mut k);
    let b: Mq<u8, 2> = Mq::new(&mut k).unwrap();
    assert_eq!(b.id(), 0);
}

#[test]
fn a_released_queue_frees_its_id_for_the_next_queue() {
    let mut k = kernel_init();
    let a: Mq<u8, 2> = Mq::<u8, 2>::new(&mut k).unwrap();
    let b: Mq<u8, 2> = Mq::<u8, 2>::new(&mut k).unwrap();
    assert_eq!(a.id(), 0);
    assert_eq!(b.id(), 1);
    a.release(&mut k);
    let c: Mq<u8, 2> = Mq::<u8, 2>::new(&mut k).unwrap();
    assert_eq!(c.id(), 0);
    let d: Mq<u8, 2> = Mq::<u8, 2>::new(&mut k).unwrap();
    assert_eq!(d.id(), 2);
}
