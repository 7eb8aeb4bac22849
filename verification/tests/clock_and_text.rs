use async_vs_threads::clock::{format_clock_micros, format_clock_millis, ClockTime, Timestamp};
use async_vs_threads::task::TaskId;
use async_vs_threads::text::{push_decimal, push_space_padded, push_zero_padded};
use chrono::NaiveTime;

fn chrono_text(h: u32, m: u32, s: u32, ns: u32, fmt: &str) -> String {
    NaiveTime::from_hms_nano_opt(h, m, s, ns).unwrap().format(fmt).to_string()
}

fn clock(hour: u32, minute: u32, second: u32, nanosecond: u32) -> ClockTime {
    ClockTime { hour, minute, second, nanosecond }
}

#[test]
fn micros_text_of_a_morning_time() {
    let t = clock(9, 5, 3, 123_456_789);
    assert_eq!(format_clock_micros(&t), "09:05:03.123456");
    assert_eq!(format_clock_micros(&t), chrono_text(9, 5, 3, 123_456_789, "%H:%M:%S%.6f"));
}

#[test]
fn millis_text_of_a_morning_time() {
    let t = clock(9, 5, 3, 123_456_789);
    assert_eq!(format_clock_millis(&t), "09:05:03.123");
    assert_eq!(format_clock_millis(&t), chrono_text(9, 5, 3, 123_456_789, "%H:%M:%S%.3f"));
}

#[test]
fn clock_texts_of_midnight() {
    assert_eq!(format_clock_micros(&clock(0, 0, 0, 0)), "00:00:00.000000");
    assert_eq!(format_clock_millis(&clock(0, 0, 0, 0)), "00:00:00.000");
}

#[test]
fn clock_texts_pad_small_fractions() {
    let t = clock(23, 59, 59, 1_000);
    assert_eq!(format_clock_micros(&t), "23:59:59.000001");
    assert_eq!(format_clock_micros(&t), chrono_text(23, 59, 59, 1_000, "%H:%M:%S%.6f"));
    let t = clock(12, 30, 7, 7_000_000);
    assert_eq!(format_clock_millis(&t), "12:30:07.007");
    assert_eq!(format_clock_millis(&t), chrono_text(12, 30, 7, 7_000_000, "%H:%M:%S%.3f"));
}

#[test]
fn leap_second_shows_as_sixty() {
    let t = clock(23, 59, 59, 1_500_000_000);
    assert_eq!(format_clock_micros(&t), "23:59:60.500000");
    assert_eq!(format_clock_micros(&t), chrono_text(23, 59, 59, 1_500_000_000, "%H:%M:%S%.6f"));
    assert_eq!(format_clock_millis(&t), chrono_text(23, 59, 59, 1_500_000_000, "%H:%M:%S%.3f"));
}

#[test]
fn spans_between_timestamps() {
    let start = Timestamp::from_nanos(1_000_000_000);
    let later = Timestamp::from_nanos(3_234_567_891);
    assert_eq!(later.nanos_since(&start), 2_234_567_891);
    assert_eq!(later.micros_since(&start), 2_234_567);
    assert_eq!(later.millis_since(&start), 2_234);
}

#[test]
fn spans_to_earlier_points_are_empty() {
    let start = Timestamp::from_nanos(5_000_000);
    let earlier = Timestamp::from_nanos(1_000);
    assert_eq!(earlier.nanos_since(&start), 0);
    assert_eq!(earlier.micros_since(&start), 0);
    assert_eq!(earlier.millis_since(&start), 0);
}

#[test]
fn millis_are_truncated_micros() {
    let start = Timestamp::from_nanos(17);
    for n in [0u128, 999, 1_000, 999_999, 1_000_000, 123_456_789_012] {
        let t = Timestamp::from_nanos(17 + n);
        assert_eq!(t.millis_since(&start), t.micros_since(&start) / 1000);
    }
}

#[test]
fn timestamps_now_are_after_the_epoch() {
    let a = Timestamp::now();
    assert!(a.nanos > 0);
}

#[test]
fn task_labels() {
    assert_eq!(TaskId(5).to_string(), "[Task 5  ]");
    assert_eq!(TaskId(42).to_string(), "[Task 42 ]");
    assert_eq!(TaskId(999).to_string(), "[Task 999]");
    assert_eq!(TaskId(123456).to_string(), "[Task 123456]");
    assert_eq!(TaskId(0).to_string(), "[Task 0  ]");
}

#[test]
fn task_labels_match_std_formatting() {
    for n in [0u32, 7, 10, 99, 100, 1000, u32::MAX] {
        let expected = format!("[Task {:0pad$}]", n.to_string(), pad = 3);
        assert_eq!(TaskId(n).to_string(), expected);
    }
}

#[test]
fn decimal_rendering() {
    let mut s = String::from("x=");
    push_decimal(&mut s, 0);
    assert_eq!(s, "x=0");
    let mut s = String::new();
    push_decimal(&mut s, u128::MAX);
    assert_eq!(s, u128::MAX.to_string());
    let mut s = String::new();
    push_decimal(&mut s, 1020304);
    assert_eq!(s, "1020304");
}

#[test]
fn padded_rendering() {
    let mut s = String::new();
    push_zero_padded(&mut s, 42, 6);
    assert_eq!(s, "000042");
    let mut s = String::new();
    push_zero_padded(&mut s, 1234567, 3);
    assert_eq!(s, "1234567");
    let mut s = String::new();
    push_space_padded(&mut s, "ab", 4);
    assert_eq!(s, "ab  ");
    let mut s = String::new();
    push_space_padded(&mut s, "abcde", 4);
    assert_eq!(s, "abcde");
}

#[test]
fn clock_readings_become_timestamps() {
    assert_eq!(Timestamp::from_clock_reading(Some(1_700_000_000_000_000_000)).nanos, 1_700_000_000_000_000_000);
    assert_eq!(Timestamp::from_clock_reading(None).nanos, 0);
}

#[test]
fn not_before_keeps_the_later_time() {
    let floor = Timestamp::from_nanos(500);
    assert_eq!(Timestamp::from_nanos(499).not_before(&floor).nanos, 500);
    assert_eq!(Timestamp::from_nanos(501).not_before(&floor).nanos, 501);
    assert_eq!(Timestamp::from_nanos(500).not_before(&floor).nanos, 500);
}

#[test]
fn now_not_before_a_future_floor_reads_the_floor() {
    let floor = Timestamp::from_nanos(u128::MAX);
    assert_eq!(Timestamp::now_not_before(&floor).nanos, u128::MAX);
    let past = Timestamp::from_nanos(1);
    assert!(Timestamp::now_not_before(&past).nanos >= 1);
}
