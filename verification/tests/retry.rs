use std::time::Duration;

use engine::retry::{backoff_ms, delay, jitter_for_clock, jitter_ms, retry_after_secs, window_ms};

#[test]
fn backoff_grows_with_the_attempt_and_is_capped() {
    let first = delay(1);
    let later = delay(4);
    let base = Duration::from_millis(400);
    let max = Duration::from_secs(5);
    assert!(first >= base);
    assert!(later > first);
    // Jitter rides on top of the window, which is what the longest wait caps.
    assert!(later <= max + max / 2);
}

#[test]
fn jitter_stays_inside_half_the_window() {
    for _ in 0..64 {
        assert!(jitter_ms(400) < 200);
    }
}

#[test]
fn the_window_doubles_then_stops_at_the_cap() {
    assert_eq!(window_ms(0), 400);
    assert_eq!(window_ms(1), 400);
    assert_eq!(window_ms(2), 800);
    assert_eq!(window_ms(3), 1600);
    assert_eq!(window_ms(4), 3200);
    assert_eq!(window_ms(5), 5000);
    assert_eq!(window_ms(40), 5000);
}

#[test]
fn a_retry_after_header_is_capped_and_must_be_a_number() {
    assert_eq!(retry_after_secs(" 3 "), Some(3));
    assert_eq!(retry_after_secs("120"), Some(5));
    assert_eq!(retry_after_secs("soon"), None);
}

#[test]
fn only_rate_limits_and_server_errors_are_retried() {
    assert_eq!(backoff_ms(404, 1, None), None);
    assert_eq!(backoff_ms(503, 3, None), None);
    assert_eq!(backoff_ms(429, 1, Some("2")), Some(2000));
    let waited = backoff_ms(500, 2, None).unwrap();
    assert!((800..1200).contains(&waited));
}

#[test]
fn the_jitter_is_the_clock_reading_modulo_half_the_window() {
    assert_eq!(jitter_for_clock(123_456_789, 400), 123_456_789 % 200);
    assert_eq!(jitter_for_clock(999, 400), 199);
    assert_eq!(jitter_for_clock(7, 1), 0, "a window under two leaves no room");
}
