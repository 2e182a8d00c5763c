use telemetry_bridge::poll::{PollState, Tick, RETRY_INTERVAL_MS};

#[test]
fn the_retry_interval_is_five_seconds() {
    assert_eq!(RETRY_INTERVAL_MS, 5000);
}

#[test]
fn the_first_tick_is_due_at_once() {
    let s = PollState::new();
    assert_eq!(s.decide(0), Tick::Poll);
    assert_eq!(s.decide(1), Tick::Poll);
    assert_eq!(s.decide(u64::MAX), Tick::Poll);
    assert!(!s.is_source_alive());
    assert_eq!(s.last_failure(), None);
}

#[test]
fn no_fetch_within_the_retry_interval_after_a_failure() {
    let mut s = PollState::new();
    assert_eq!(s.decide(0), Tick::Poll);
    s.record(0, false);
    assert_eq!(s.decide(1000), Tick::Idle);
    assert_eq!(s.decide(2000), Tick::Idle);
    assert_eq!(s.decide(3000), Tick::Idle);
    assert_eq!(s.decide(4000), Tick::Idle);
    assert_eq!(s.decide(4999), Tick::Idle);
    assert_eq!(s.decide(5001), Tick::Poll);
    assert_eq!(s.decide(6000), Tick::Poll);
    assert_eq!(s.decide(u64::MAX), Tick::Poll);
}

#[test]
fn the_interval_must_be_exceeded() {
    let mut s = PollState::new();
    s.record(0, false);
    assert_eq!(s.decide(5000), Tick::Idle);
    let mut s = PollState::new();
    s.record(1234, false);
    assert_eq!(s.decide(6234), Tick::Idle);
    assert_eq!(s.decide(6235), Tick::Poll);
}

#[test]
fn a_failure_marks_the_source_not_alive_and_records_the_time() {
    let mut s = PollState::new();
    s.record(10, true);
    assert!(s.is_source_alive());
    s.record(700, false);
    assert!(!s.is_source_alive());
    assert_eq!(s.last_failure(), Some(700));
}

#[test]
fn a_success_leaves_the_failure_time_unchanged() {
    let mut s = PollState::new();
    s.record(100, false);
    s.record(6000, true);
    assert!(s.is_source_alive());
    assert_eq!(s.last_failure(), Some(100));
    assert_eq!(s.decide(6001), Tick::Poll);
    let mut s = PollState::new();
    s.record(5, true);
    assert_eq!(s.last_failure(), None);
    assert_eq!(s.decide(6), Tick::Poll);
}

#[test]
fn a_second_failure_starts_the_interval_anew() {
    let mut s = PollState::new();
    s.record(0, false);
    assert_eq!(s.decide(5001), Tick::Poll);
    s.record(5001, false);
    assert_eq!(s.decide(6000), Tick::Idle);
    assert_eq!(s.decide(10001), Tick::Idle);
    assert_eq!(s.decide(10002), Tick::Poll);
}

#[test]
fn a_clock_that_went_back_is_not_due() {
    let mut s = PollState::new();
    s.record(9000, false);
    assert_eq!(s.decide(0), Tick::Idle);
    assert_eq!(s.decide(9000), Tick::Idle);
    assert_eq!(s.retry_remaining(0), 5000);
}

#[test]
fn a_failure_at_the_end_of_time_is_never_retried() {
    let mut s = PollState::new();
    s.record(u64::MAX - 10, false);
    assert_eq!(s.decide(u64::MAX), Tick::Idle);
}

#[test]
fn retry_remaining_counts_down_to_zero() {
    let mut s = PollState::new();
    assert_eq!(s.retry_remaining(123), 0);
    s.record(1000, false);
    assert_eq!(s.retry_remaining(1000), 5000);
    assert_eq!(s.retry_remaining(2500), 3500);
    assert_eq!(s.retry_remaining(5999), 1);
    assert_eq!(s.retry_remaining(6000), 0);
    assert_eq!(s.retry_remaining(60000), 0);
}
