use std::time::{Duration, Instant};

use ruster::screencopy::{capture_waited_too_long, overdue, FrameData, CAPTURE_TIMEOUT_MS};

#[test]
fn a_capture_is_failed_only_after_it_has_really_waited() {
    let timeout = Duration::from_millis(CAPTURE_TIMEOUT_MS);
    let asked = Instant::now();
    assert!(!overdue(asked, asked));
    assert!(!overdue(asked, asked + Duration::from_millis(500)));
    assert!(!overdue(asked, asked + timeout - Duration::from_millis(1)));
    assert!(overdue(asked, asked + timeout));
    assert!(overdue(asked, asked + Duration::from_secs(30)));
}

#[test]
fn a_clock_reading_from_before_the_request_is_not_overdue() {
    let now = Instant::now();
    assert!(!overdue(now + Duration::from_secs(5), now));
}

#[test]
fn the_timeout_is_two_seconds_to_the_nanosecond() {
    assert!(!capture_waited_too_long(1_999_999_999));
    assert!(capture_waited_too_long(2_000_000_000));
}

#[test]
fn the_stride_is_the_row_a_client_must_allocate() {
    let data = FrameData { width: 1920, height: 1080 };
    assert_eq!(data.stride(), 1920 * 4);
    assert_eq!(data.stride() as usize * 1080, 1920 * 1080 * 4, "four bytes a pixel, no padding");
    let odd = FrameData { width: 1873, height: 1334 };
    assert_eq!(odd.stride(), 1873 * 4, "an odd width is not rounded up");
}

use ruster::screencopy::{next_capture_deadline, next_deadline, remaining};

#[test]
fn the_oldest_capture_sets_the_deadline() {
    assert_eq!(next_deadline(&[]), None, "nothing waiting, nothing to wake for");
    assert_eq!(next_deadline(&[500_000_000, 1_500_000_000, 0]), Some(500_000_000));
    assert_eq!(next_deadline(&[3_000_000_000]), Some(0), "overdue is now, not negative");
    assert_eq!(remaining(0), 2_000_000_000);
    assert_eq!(remaining(2_000_000_000), 0);
}

#[test]
fn a_screenshot_and_a_capture_wake_the_loop_for_the_sooner() {
    assert_eq!(next_capture_deadline(None, &[]), None);
    assert_eq!(next_capture_deadline(Some(0), &[]), Some(2_000_000_000));
    assert_eq!(next_capture_deadline(None, &[1_000_000_000]), Some(1_000_000_000));
    assert_eq!(
        next_capture_deadline(Some(1_000_000_000), &[1_500_000_000]),
        Some(500_000_000)
    );
    assert_eq!(
        next_capture_deadline(Some(1_900_000_000), &[100]),
        Some(100_000_000)
    );
}

use ruster::screencopy::expire;

#[test]
fn the_overdue_captures_are_failed_and_the_rest_kept_in_order() {
    let (dead, alive) = expire(vec![
        ("a", 2_500_000_000u128),
        ("b", 10),
        ("c", 2_000_000_000),
        ("d", 1_999_999_999),
    ]);
    assert_eq!(dead, vec!["a", "c"]);
    assert_eq!(alive, vec!["b", "d"]);
    let (dead, alive) = expire(Vec::<(u8, u128)>::new());
    assert!(dead.is_empty() && alive.is_empty());
}

use ruster::screencopy::CAPTURE_FORMAT;

#[test]
fn a_buffer_is_taken_only_if_it_is_the_one_offered() {
    let frame = FrameData { width: 1920, height: 1080 };
    let len = 7680 * 1080;
    assert!(frame.fits(CAPTURE_FORMAT, 1920, 1080, 7680, len));
    assert!(frame.fits(CAPTURE_FORMAT, 1920, 1080, 7680, len + 64), "room to spare is fine");
    assert!(!frame.fits(0, 1920, 1080, 7680, len), "ARGB8888 is not what was offered");
    assert!(!frame.fits(CAPTURE_FORMAT, 1920, 1080, 7680 + 64, len), "a padded stride");
    assert!(!frame.fits(CAPTURE_FORMAT, 1280, 1080, 7680, len));
    assert!(!frame.fits(CAPTURE_FORMAT, 1920, 720, 7680, len));
    assert!(!frame.fits(CAPTURE_FORMAT, 1920, 1080, 7680, len - 1), "one byte short");
}
