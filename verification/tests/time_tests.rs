use redloop::text::{decimal_string, parse_signed, parse_unsigned, signed_decimal_string};
use redloop::time::{
    Duration, Instant, Timestamp, duration_micros, next_poll_delay, runtime_backoff_deadline, runtime_backoff_ready,
    runtime_backoff_remaining, sleep_duration,
};

fn at(micros: i64) -> Timestamp {
    Timestamp::checked_from_micros(micros).unwrap()
}

#[test]
fn durations_convert_between_units() {
    let d = Duration::new(3, 1_500_000_000);
    assert_eq!(d.as_secs(), 4);
    assert_eq!(d.subsec_nanos(), 500_000_000);
    assert_eq!(d.as_millis(), 4_500);
    assert_eq!(d.as_micros(), 4_500_000);
    assert_eq!(Duration::from_millis(7).as_nanos(), 7_000_000);
    assert!(Duration::zero().is_zero());
    assert!(Duration::from_millis(1).lt(&Duration::from_millis(2)));
    assert!(Duration::from_millis(2).le(&Duration::from_millis(2)));
    assert_eq!(Duration::from_millis(5).min(Duration::from_millis(3)), Duration::from_millis(3));
}

#[test]
fn saturating_multiplication_stops_at_the_largest_duration() {
    let max = Duration::new(u64::MAX, 999_999_999);
    assert_eq!(max.saturating_mul(2), max);
    assert_eq!(Duration::from_secs(2).saturating_mul(3), Duration::from_secs(6));
    assert_eq!(Duration::from_nanos_saturating(u128::MAX), max);
}

#[test]
fn poll_delay_doubles_up_to_the_maximum() {
    assert_eq!(next_poll_delay(Duration::from_millis(10), Duration::from_millis(100)), Duration::from_millis(20));
    assert_eq!(next_poll_delay(Duration::from_millis(60), Duration::from_millis(100)), Duration::from_millis(100));
    assert_eq!(next_poll_delay(Duration::from_millis(100), Duration::from_millis(100)), Duration::from_millis(100));
}

#[test]
fn idle_sleep_is_capped_by_the_next_due_job() {
    let poll = Duration::from_millis(100);
    assert_eq!(sleep_duration(at(0), poll, None), poll);
    assert_eq!(sleep_duration(at(0), poll, Some(at(30_000))), Duration::from_millis(30));
    assert_eq!(sleep_duration(at(0), poll, Some(at(300_000))), poll);
    assert_eq!(sleep_duration(at(10), poll, Some(at(5))), poll);
}

#[test]
fn duration_micros_saturates_at_i64_max() {
    assert_eq!(duration_micros(Duration::from_millis(3)), 3_000);
    assert_eq!(duration_micros(Duration::from_secs(u64::MAX)), i64::MAX);
}

#[test]
fn runtime_backoff_waits_until_its_deadline() {
    let now = Instant { nanos: 1_000 };
    let deadline = runtime_backoff_deadline(now, Duration::from_nanos(500));
    assert_eq!(deadline, Instant { nanos: 1_500 });
    assert!(!runtime_backoff_ready(Instant { nanos: 1_499 }, Some(deadline)));
    assert!(runtime_backoff_ready(Instant { nanos: 1_500 }, Some(deadline)));
    assert!(runtime_backoff_ready(now, None));
    assert_eq!(runtime_backoff_remaining(Instant { nanos: 1_200 }, Some(deadline)), Duration::from_nanos(300));
    assert_eq!(runtime_backoff_remaining(Instant { nanos: 2_000 }, Some(deadline)), Duration::zero());
    let far = Instant { nanos: u128::MAX - 1 };
    assert_eq!(runtime_backoff_deadline(far, Duration::from_secs(1)), far);
}

#[test]
fn timestamps_compare_by_instant() {
    assert!(at(2).is_after(&at(1)));
    assert!(!at(1).is_after(&at(1)));
    assert_eq!(Timestamp::epoch().timestamp_micros(), 0);
    assert!(Timestamp::checked_from_micros(i64::MAX).is_none());
}

#[test]
fn decimal_text_round_trips() {
    assert_eq!(decimal_string(0), "0");
    assert_eq!(decimal_string(1_234_567), "1234567");
    assert_eq!(signed_decimal_string(-42), "-42");
    assert_eq!(signed_decimal_string(i64::MIN), "-9223372036854775808");
    assert_eq!(parse_signed(&signed_decimal_string(i64::MIN)), Some(i64::MIN));
    assert_eq!(parse_unsigned("00017", 100), Some(17));
    assert_eq!(parse_unsigned("101", 100), None);
    assert_eq!(parse_unsigned("+5", 100), Some(5));
    assert_eq!(parse_unsigned("-5", 100), None);
}

#[test]
fn idle_sleep_counts_nanoseconds() {
    let now = Timestamp::checked_from_micros_nanos(0, 500).unwrap();
    let poll = Duration::from_millis(100);
    assert_eq!(sleep_duration(now, poll, Some(at(30_000))), Duration::from_nanos(29_999_500));
    // Due within the same microsecond, but later.
    let later = Timestamp::checked_from_micros_nanos(0, 900).unwrap();
    assert_eq!(sleep_duration(now, poll, Some(later)), Duration::from_nanos(400));
    // Due within the same microsecond, but already past.
    assert_eq!(sleep_duration(later, poll, Some(now)), poll);
}

#[test]
fn timestamps_hold_nanoseconds_below_a_microsecond() {
    let t = Timestamp::checked_from_micros_nanos(-1, 999).unwrap();
    assert_eq!(t.timestamp_micros(), -1);
    assert_eq!(t.sub_micro_nanos(), 999);
    assert!(Timestamp::checked_from_micros_nanos(0, 1000).is_none());
    assert!(Timestamp::checked_from_micros_nanos(i64::MAX, 0).is_none());
    assert!(Timestamp::checked_from_micros_nanos(0, 1).unwrap().is_after(&at(0)));
    assert!(!at(0).is_after(&Timestamp::checked_from_micros_nanos(0, 1).unwrap()));
    assert_eq!(Timestamp::epoch().sub_micro_nanos(), 0);
}
