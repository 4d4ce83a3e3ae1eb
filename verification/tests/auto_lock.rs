//! The inactivity deadline against a manually advanced clock.

use keyhaven::session::auto_lock::{clock_after, AutoLock, Clock, TestClock};
use std::sync::Arc;

fn with_test_clock() -> (Arc<TestClock>, AutoLock<Arc<TestClock>>) {
    let clock = Arc::new(TestClock::new());
    let auto = AutoLock::new(clock.clone());
    (clock, auto)
}

#[test]
fn disabled_timeout_never_arms_or_expires() {
    let (clock, mut auto) = with_test_clock();
    auto.arm(0);
    assert!(!auto.is_armed(), "timeout 0 must not arm a deadline");
    clock.advance_secs(10_000);
    assert!(!auto.is_expired(), "disabled auto-lock never expires");
}

#[test]
fn arm_then_expire_after_timeout() {
    let (clock, mut auto) = with_test_clock();
    auto.arm(300); // 5 minutes
    assert!(auto.is_armed());
    assert!(!auto.is_expired(), "fresh deadline is not yet expired");

    clock.advance_secs(299);
    assert!(!auto.is_expired(), "one second before deadline: still unlocked");

    clock.advance_secs(1); // exactly at deadline
    assert!(auto.is_expired(), "at the deadline the vault should auto-lock");
}

#[test]
fn record_activity_resets_the_deadline() {
    let (clock, mut auto) = with_test_clock();
    auto.arm(300);

    // Advance most of the way, then report activity: the countdown restarts.
    clock.advance_secs(290);
    assert!(!auto.is_expired());
    auto.record_activity();

    // 290s after the reset is still within the fresh 300s window.
    clock.advance_secs(290);
    assert!(
        !auto.is_expired(),
        "activity must reset the inactivity timer"
    );

    // Crossing the full timeout from the reset point finally expires it.
    clock.advance_secs(10);
    assert!(auto.is_expired());
}

#[test]
fn record_activity_is_noop_when_disabled() {
    let (clock, mut auto) = with_test_clock();
    auto.arm(0);
    auto.record_activity();
    clock.advance_secs(99_999);
    assert!(!auto.is_expired());
}

#[test]
fn disarm_clears_the_deadline() {
    let (clock, mut auto) = with_test_clock();
    auto.arm(60);
    assert!(auto.is_armed());
    auto.disarm();
    assert!(!auto.is_armed());
    clock.advance_secs(120);
    assert!(!auto.is_expired(), "a disarmed deadline never expires");
}

#[test]
fn set_timeout_restarts_countdown_with_new_duration() {
    let (clock, mut auto) = with_test_clock();
    auto.arm(300);
    clock.advance_secs(100);

    // Shorten the timeout to 30s: countdown restarts from now.
    auto.set_timeout(30);
    assert_eq!(auto.timeout_secs(), 30);
    clock.advance_secs(29);
    assert!(!auto.is_expired());
    clock.advance_secs(1);
    assert!(auto.is_expired());
}

#[test]
fn activity_after_disarm_keeps_it_disarmed() {
    let (clock, mut auto) = with_test_clock();
    auto.arm(60);
    auto.disarm();
    auto.record_activity();
    assert!(!auto.is_armed());
    clock.advance_secs(120);
    assert!(!auto.is_expired(), "only arming again can make it fire");
    auto.arm(60);
    clock.advance_secs(60);
    assert!(auto.is_expired());
}

#[test]
fn test_clock_saturates_instead_of_wrapping() {
    let clock = TestClock::new();
    clock.advance(u64::MAX - 5);
    assert_eq!(clock.now_millis(), u64::MAX - 5);
    clock.advance(10);
    assert_eq!(clock.now_millis(), u64::MAX);
    clock.advance_secs(u64::MAX);
    assert_eq!(clock.now_millis(), u64::MAX);
}

#[test]
fn clock_after_saturates() {
    assert_eq!(clock_after(5, 7), 12);
    assert_eq!(clock_after(u64::MAX - 1, 7), u64::MAX);
}
