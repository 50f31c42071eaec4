use snitch::filter::{NotificationFilter, DEAD_TIME};
use snitch::user::UserID;

#[test]
fn notification_filter_test_cleanup() {
    let mut handler = NotificationFilter::new();
    handler.cleanup(0);
}

#[test]
fn cooldown_suppresses_then_expires() {
    let mut filter = NotificationFilter::new();
    let a = UserID::from("a".to_string());
    assert!(filter.notify_user_at(&a, 1000));
    assert!(!filter.notify_user_at(&a, 1000 + DEAD_TIME - 1));
    assert!(filter.notify_user_at(&a, 1000 + DEAD_TIME));
}

#[test]
fn cooldown_is_per_account() {
    let mut filter = NotificationFilter::new();
    let a = UserID::from("a".to_string());
    let b = UserID::from("b".to_string());
    assert!(filter.notify_user_at(&a, 0));
    assert!(filter.notify_user_at(&b, 1));
    assert!(!filter.notify_user_at(&a, 2));
    assert!(!filter.notify_user_at(&b, 2));
}

#[test]
fn suppressed_call_does_not_extend_the_window() {
    let mut filter = NotificationFilter::new();
    let a = UserID::from("a".to_string());
    assert!(filter.notify_user_at(&a, 0));
    assert!(!filter.notify_user_at(&a, DEAD_TIME - 1));
    assert!(filter.notify_user_at(&a, DEAD_TIME));
}

#[test]
fn cooldown_near_the_end_of_time() {
    let mut filter = NotificationFilter::new();
    let a = UserID::from("a".to_string());
    assert!(filter.notify_user_at(&a, i64::MAX - 1));
    assert!(!filter.notify_user_at(&a, i64::MAX - 1));
}

#[test]
fn notify_with_clock_twice_suppresses() {
    let mut filter = NotificationFilter::new();
    let a = UserID::new();
    assert!(filter.notify_user(&a));
    assert!(!filter.notify_user(&a));
}
