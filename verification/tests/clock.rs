use ai_firewall::clock::{current_timestamp, timestamp_of_reading};
use std::time::Duration;

#[test]
fn a_clock_before_the_epoch_counts_as_the_epoch() {
    assert_eq!(timestamp_of_reading(None), 0);
}

#[test]
fn a_reading_counts_its_whole_seconds() {
    assert_eq!(timestamp_of_reading(Some(Duration::new(0, 0))), 0);
    assert_eq!(timestamp_of_reading(Some(Duration::new(0, 999_999_999))), 0);
    assert_eq!(timestamp_of_reading(Some(Duration::new(1, 999_999_999))), 1);
    assert_eq!(timestamp_of_reading(Some(Duration::new(2, 0))), 2);
    assert_eq!(timestamp_of_reading(Some(Duration::new(1_725_029_869, 5))), 1_725_029_869);
    assert_eq!(timestamp_of_reading(Some(Duration::MAX)), u64::MAX);
}

#[test]
fn time_stamps_are_monotone() {
    let mut last = timestamp_of_reading(None);
    for millis in (0..5000u64).step_by(250) {
        let stamp = timestamp_of_reading(Some(Duration::from_millis(millis)));
        assert_eq!(stamp, millis / 1000);
        assert!(stamp >= last);
        last = stamp;
    }
}

#[test]
fn the_current_time_stamp_lies_in_this_century() {
    let first = current_timestamp();
    assert!(first > 978_307_200);
    assert!(first < 4_102_444_800);
    assert!(current_timestamp() >= first);
}
