use neon_rtos2::ipc::channel::{Ipc, IpcError, IpcHandle};
use neon_rtos2::kernel::scheduler::Scheduler;
use neon_rtos2::kernel::task::{Task, TaskState};
use neon_rtos2::sync::event::Event;
use neon_rtos2::utils::kernel_init;

#[derive(Debug, PartialEq)]
enum Payload {
    Num(u32),
    Text(&'static str),
}

const U32_KEY: u64 = 1;
const STR_KEY: u64 = 2;

#[test]
fn test_ipc_basic() {
    let mut k = kernel_init();
    Task::new(&mut k, "task1").unwrap();
    Task::new(&mut k, "task2").unwrap();

    Scheduler::start(&mut k);

    let mut ipc: Ipc<Payload> = Ipc::new();
    let queue = ipc.create_queue(10);

    assert!(ipc.send(&mut k, queue, U32_KEY, Payload::Num(42)).is_ok());
    assert!(ipc.send(&mut k, queue, U32_KEY, Payload::Num(100)).is_ok());

    assert_eq!(ipc.receive(&mut k, queue, U32_KEY).unwrap(), Payload::Num(42));
    assert_eq!(ipc.receive(&mut k, queue, U32_KEY).unwrap(), Payload::Num(100));

    assert!(ipc.send(&mut k, queue, STR_KEY, Payload::Text("hello")).is_ok());
    assert!(ipc.receive(&mut k, queue, U32_KEY).is_err());
    assert_eq!(ipc.receive(&mut k, queue, STR_KEY).unwrap(), Payload::Text("hello"));

    ipc.destroy_queue(queue).unwrap();
}

#[test]
fn handles_start_at_one_and_unknown_handles_are_refused() {
    let mut k = kernel_init();
    let mut ipc: Ipc<u8> = Ipc::new();
    assert_eq!(ipc.create_queue(1), IpcHandle(1));
    assert_eq!(ipc.create_queue(1), IpcHandle(2));
    assert_eq!(ipc.send(&mut k, IpcHandle(0), 0, 1), Err(IpcError::InvalidHandle));
    assert_eq!(ipc.try_receive(&mut k, IpcHandle(7), 0), Err(IpcError::InvalidHandle));
    assert_eq!(ipc.destroy_queue(IpcHandle(9)), Err(IpcError::InvalidHandle));
    assert_eq!(ipc.destroy_queue(IpcHandle(2)), Ok(()));
    assert_eq!(ipc.try_send(&mut k, IpcHandle(2), 0, 1), Err(IpcError::InvalidHandle));
}

#[test]
fn a_full_queue_blocks_the_sender_and_a_receive_wakes_it() {
    let mut k = kernel_init();
    Task::new(&mut k, "a").unwrap();
    Task::new(&mut k, "b").unwrap();
    Scheduler::start(&mut k);
    let mut ipc: Ipc<u8> = Ipc::new();
    let q = ipc.create_queue(1);
    assert_eq!(ipc.send(&mut k, q, 0, 5), Ok(()));
    assert_eq!(ipc.send(&mut k, q, 0, 6), Err(IpcError::QueueFull));
    assert_eq!(Task(0).get_state(&k), TaskState::Blocked(Event::Mq(q.0)));
    assert_eq!(ipc.receive(&mut k, q, 0), Ok(5));
    assert_eq!(Task(0).get_state(&k), TaskState::Ready);
    assert_eq!(ipc.receive(&mut k, q, 0), Err(IpcError::QueueEmpty));
    assert_eq!(Task(0).get_state(&k), TaskState::Blocked(Event::Mq(q.0)));
    assert_eq!(ipc.send(&mut k, q, 0, 7), Ok(()));
    assert_eq!(Task(0).get_state(&k), TaskState::Ready);
}

#[test]
fn a_type_mismatch_leaves_the_message_in_place() {
    let mut k = kernel_init();
    let mut ipc: Ipc<u8> = Ipc::new();
    let q = ipc.create_queue(4);
    assert_eq!(ipc.send(&mut k, q, 3, 9), Ok(()));
    assert_eq!(ipc.receive(&mut k, q, 4), Err(IpcError::TypeMismatch));
    assert_eq!(ipc.receive(&mut k, q, 4), Err(IpcError::TypeMismatch));
    assert_eq!(ipc.receive(&mut k, q, 3), Ok(9));
}

#[test]
fn try_send_on_a_full_queue_fails_at_once_without_blocking() {
    let mut k = kernel_init();
    Task::new(&mut k, "a").unwrap();
    Task::new(&mut k, "b").unwrap();
    Scheduler::start(&mut k);
    let mut ipc: Ipc<u8> = Ipc::new();
    let q = ipc.create_queue(2);
    assert_eq!(ipc.try_send(&mut k, q, 0, 1), Ok(()));
    assert_eq!(ipc.try_send(&mut k, q, 0, 2), Ok(()));
    assert_eq!(ipc.try_send(&mut k, q, 0, 3), Err(IpcError::QueueFull));
    assert_eq!(Task(0).get_state(&k), TaskState::Running);
    assert_eq!(Task(1).get_state(&k), TaskState::Ready);
    assert_eq!(ipc.receive(&mut k, q, 0), Ok(1));
    assert_eq!(ipc.receive(&mut k, q, 0), Ok(2));
    assert_eq!(Task(0).get_state(&k), TaskState::Running);
}

#[test]
fn try_receive_on_an_empty_queue_fails_at_once_without_blocking() {
    let mut k = kernel_init();
    Task::new(&mut k, "a").unwrap();
    Scheduler::start(&mut k);
    let mut ipc: Ipc<u8> = Ipc::new();
    let q = ipc.create_queue(1);
    assert_eq!(ipc.try_receive(&mut k, q, 0), Err(IpcError::QueueEmpty));
    assert_eq!(Task(0).get_state(&k), TaskState::Running);
    assert_eq!(ipc.send(&mut k, q, 0, 4), Ok(()));
    assert_eq!(Task(0).get_state(&k), TaskState::Running);
    assert_eq!(ipc.try_receive(&mut k, q, 0), Ok(4));
}

#[test]
fn handles_are_not_reused_after_a_queue_is_removed() {
    let mut ipc: Ipc<u8> = Ipc::new();
    let a = ipc.create_queue(1);
    assert_eq!(ipc.destroy_queue(a), Ok(()));
    let b = ipc.create_queue(1);
    assert_ne!(a, b);
    assert_eq!(b, IpcHandle(2));
}

#[test]
fn a_queue_takes_exactly_its_capacity() {
    let mut k = kernel_init();
    Task::new(&mut k, "a").unwrap();
    Scheduler::start(&mut k);
    let mut ipc: Ipc<u8> = Ipc::new();
    let q = ipc.create_queue(3);
    for i in 0..3 {
        assert_eq!(ipc.send(&mut k, q, 0, i), Ok(()));
    }
    assert_eq!(ipc.send(&mut k, q, 0, 9), Err(IpcError::QueueFull));
}
