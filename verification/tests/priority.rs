use neon_rtos2::kernel::task::Priority;

#[test]
fn test_priority_ordering() {
    assert!(Priority::Critical > Priority::High);
    assert!(Priority::High > Priority::Normal);
    assert!(Priority::Normal > Priority::Low);
    assert!(Priority::Low > Priority::Idle);
}

#[test]
fn test_priority_default() {
    assert_eq!(Priority::default(), Priority::Normal);
}

#[test]
fn test_priority_from_u8() {
    assert_eq!(Priority::from_u8(0), Some(Priority::Idle));
    assert_eq!(Priority::from_u8(1), Some(Priority::Low));
    assert_eq!(Priority::from_u8(2), Some(Priority::Normal));
    assert_eq!(Priority::from_u8(3), Some(Priority::High));
    assert_eq!(Priority::from_u8(4), Some(Priority::Critical));
    assert_eq!(Priority::from_u8(5), None);
}

#[test]
fn test_priority_as_u8() {
    assert_eq!(Priority::Idle.as_u8(), 0);
    assert_eq!(Priority::Low.as_u8(), 1);
    assert_eq!(Priority::Normal.as_u8(), 2);
    assert_eq!(Priority::High.as_u8(), 3);
    assert_eq!(Priority::Critical.as_u8(), 4);
}

#[test]
fn test_priority_is_methods() {
    assert!(Priority::Idle.is_idle());
    assert!(!Priority::Normal.is_idle());
    assert!(Priority::Critical.is_critical());
    assert!(!Priority::High.is_critical());
}

#[test]
fn priority_round_trip_all_numbers() {
    for v in 0u8..=255 {
        match Priority::from_u8(v) {
            Some(p) => assert_eq!(p.as_u8(), v),
            None => assert!(v >= 5),
        }
    }
}

#[test]
fn priority_is_higher_than_follows_numbers() {
    assert!(Priority::High.is_higher_than(Priority::Low));
    assert!(!Priority::Low.is_higher_than(Priority::Low));
    assert!(!Priority::Idle.is_higher_than(Priority::Critical));
}

#[test]
fn priorities_compare_by_their_numbers() {
    let all = [Priority::Idle, Priority::Low, Priority::Normal, Priority::High, Priority::Critical];
    for p in all {
        for q in all {
            assert_eq!(p < q, p.as_u8() < q.as_u8());
            assert_eq!(p > q, p.as_u8() > q.as_u8());
            assert_eq!(p.partial_cmp(&q) == Some(std::cmp::Ordering::Equal), p == q);
        }
    }
}
