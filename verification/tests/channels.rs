use neon_rtos2::ipc_elegant::{create_global_channel, ChannelId, IpcError, CHANNEL_CAPACITY};

#[test]
fn test_ipc_basic_functionality() {
    let (mut log_ch, log_tx, log_rx) = create_global_channel::<&'static str>(ChannelId::SystemLog);
    let (mut int_ch, int_tx, int_rx) = create_global_channel::<u32>(ChannelId::InterruptToTask);

    assert!(log_tx.send(&mut log_ch, "Hello from task").is_ok());
    assert!(int_tx.send(&mut int_ch, 42).is_ok());

    match log_rx.try_recv(&mut log_ch) {
        Ok(msg) => {
            assert_eq!(msg, "Hello from task");
        }
        Err(e) => panic!("Failed to receive log message: {:?}", e),
    }

    match int_rx.try_recv(&mut int_ch) {
        Ok(int_val) => {
            assert_eq!(int_val, 42);
        }
        Err(e) => panic!("Failed to receive int value: {:?}", e),
    }
}

#[test]
fn test_channel_empty() {
    let (mut ch, _, rx) = create_global_channel::<i32>(ChannelId::UserChannel0);

    match rx.try_recv(&mut ch) {
        Err(IpcError::ChannelEmpty) => {}
        Ok(_) => panic!("Expected ChannelEmpty error"),
        Err(e) => panic!("Unexpected error: {:?}", e),
    }
}

#[test]
fn test_multiple_messages() {
    let (mut ch, tx, rx) = create_global_channel::<u8>(ChannelId::UserChannel1);

    for i in 0..5 {
        assert!(tx.send(&mut ch, i).is_ok());
    }

    for i in 0..5 {
        match rx.try_recv(&mut ch) {
            Ok(val) => assert_eq!(val, i),
            Err(e) => panic!("Failed to receive message {}: {:?}", i, e),
        }
    }

    assert!(matches!(rx.try_recv(&mut ch), Err(IpcError::ChannelEmpty)));
}

#[test]
fn test_different_data_types() {
    let (mut str_ch, str_tx, str_rx) = create_global_channel::<&'static str>(ChannelId::UserChannel2);
    let (mut bool_ch, bool_tx, bool_rx) = create_global_channel::<bool>(ChannelId::UserChannel3);
    let (mut tuple_ch, tuple_tx, tuple_rx) = create_global_channel::<(u32, u32)>(ChannelId::UserChannel4);

    assert!(str_tx.send(&mut str_ch, "test string").is_ok());
    assert!(bool_tx.send(&mut bool_ch, true).is_ok());
    assert!(tuple_tx.send(&mut tuple_ch, (10, 20)).is_ok());

    assert_eq!(str_rx.try_recv(&mut str_ch).unwrap(), "test string");
    assert_eq!(bool_rx.try_recv(&mut bool_ch).unwrap(), true);
    assert_eq!(tuple_rx.try_recv(&mut tuple_ch).unwrap(), (10, 20));
}

#[test]
fn a_full_channel_refuses_and_keeps_order() {
    let (mut ch, tx, rx) = create_global_channel::<String>(ChannelId::TaskToTask);
    for i in 0..CHANNEL_CAPACITY {
        assert_eq!(tx.try_send(&mut ch, format!("m{}", i)), Ok(()));
    }
    assert_eq!(ch.len(), CHANNEL_CAPACITY);
    assert_eq!(tx.send(&mut ch, String::from("extra")), Err(IpcError::ChannelFull));
    for i in 0..CHANNEL_CAPACITY {
        assert_eq!(rx.recv(&mut ch), Ok(format!("m{}", i)));
        assert_eq!(tx.send(&mut ch, format!("n{}", i)), Ok(()));
    }
    for i in 0..CHANNEL_CAPACITY {
        assert_eq!(rx.recv(&mut ch), Ok(format!("n{}", i)));
    }
    assert_eq!(rx.recv(&mut ch), Err(IpcError::ChannelEmpty));
}

#[test]
fn a_side_refuses_another_channel() {
    let (mut a, a_tx, a_rx) = create_global_channel::<u32>(ChannelId::UserChannel0);
    let (mut b, b_tx, _) = create_global_channel::<u32>(ChannelId::UserChannel1);
    assert_eq!(a_tx.send(&mut b, 1), Err(IpcError::ChannelNotFound));
    assert_eq!(b.len(), 0);
    assert_eq!(b_tx.send(&mut b, 2), Ok(()));
    assert_eq!(a_rx.recv(&mut b), Err(IpcError::ChannelNotFound));
    assert_eq!(a_rx.recv(&mut a), Err(IpcError::ChannelEmpty));
    assert_eq!(a.id(), ChannelId::UserChannel0);
    assert_eq!(a_tx.channel_id(), ChannelId::UserChannel0);
    assert_eq!(ChannelId::UserChannel4.index(), 7);
}
