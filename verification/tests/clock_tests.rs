use devflow::clock::{
    age_in_days, current_instant, days_between, minutes_between, now_seconds, window_start_checked,
    Instant,
};
use devflow::types::{MAX_INSTANT, MIN_INSTANT, SECS_PER_DAY};

#[test]
fn whole_minutes_round_toward_zero() {
    assert_eq!(minutes_between(120, 0), 2);
    assert_eq!(minutes_between(119, 0), 1);
    assert_eq!(minutes_between(59, 0), 0);
    assert_eq!(minutes_between(0, 119), -1);
    assert_eq!(minutes_between(0, 59), 0);
    assert_eq!(minutes_between(MAX_INSTANT, MIN_INSTANT), (MAX_INSTANT - MIN_INSTANT) / 60);
}

#[test]
fn whole_days_round_toward_zero() {
    assert_eq!(days_between(SECS_PER_DAY, 0), 1);
    assert_eq!(days_between(SECS_PER_DAY - 1, 0), 0);
    assert_eq!(days_between(10 * SECS_PER_DAY + 5, 5), 10);
    assert_eq!(days_between(0, SECS_PER_DAY + 1), -1);
    assert_eq!(days_between(0, SECS_PER_DAY - 1), 0);
}

fn at(secs: i64, nanos: u32) -> Instant {
    Instant { secs, nanos }
}

#[test]
fn window_start_in_range() {
    assert_eq!(window_start_checked(Instant::at(1_000_000_000), 90), Some(1_000_000_000 - 90 * 86400));
    assert_eq!(window_start_checked(Instant::at(0), 0), Some(0));
    assert_eq!(window_start_checked(Instant::at(MIN_INSTANT), 0), Some(MIN_INSTANT));
    // a fraction of a second moves the first whole second of the window up by one
    assert_eq!(window_start_checked(at(1_000_000_000, 5), 90), Some(1_000_000_000 - 90 * 86400 + 1));
    assert_eq!(window_start_checked(at(MIN_INSTANT, 1), 0), Some(MIN_INSTANT + 1));
}

#[test]
fn window_start_before_the_earliest_instant() {
    assert_eq!(MIN_INSTANT, -8334601315200);
    assert_eq!(window_start_checked(Instant::at(MIN_INSTANT), 1), None);
    assert_eq!(window_start_checked(Instant::at(0), u32::MAX), None);
    let days = ((-MIN_INSTANT) / 86400) as u32;
    assert_eq!(window_start_checked(Instant::at(0), days), Some(-(days as i64) * 86400));
    assert_eq!(window_start_checked(at(0, 999_999_999), days), Some(-(days as i64) * 86400 + 1));
    assert_eq!(window_start_checked(Instant::at(0), days + 1), None);
    // the first day chrono can hold begins at the earliest instant
    assert_eq!(window_start_checked(Instant::at(MIN_INSTANT + 86400), 1), Some(MIN_INSTANT));
}

#[test]
fn ages_count_whole_days_as_chrono_does() {
    let now = at(10 * 86400, 500);
    assert_eq!(age_in_days(now, 10 * 86400), 0);
    assert_eq!(age_in_days(now, 9 * 86400), 1);
    assert_eq!(age_in_days(now, 9 * 86400 + 1), 0);
    // in the future: the fraction brings the difference one second closer to zero
    assert_eq!(age_in_days(now, 11 * 86400), 0);
    assert_eq!(age_in_days(Instant::at(10 * 86400), 11 * 86400), -1);
    assert_eq!(age_in_days(now, 11 * 86400 + 1), -1);
}

#[test]
fn clock_reads_the_system_time() {
    let t = now_seconds();
    let expected = std::time::SystemTime::now()
        .duration_since(std::time::UNIX_EPOCH)
        .unwrap()
        .as_secs() as i64;
    assert!((t - expected).abs() <= 5);
    assert!(0 <= t && t <= MAX_INSTANT);
    let i = current_instant();
    assert!((i.secs - expected).abs() <= 5);
    assert!(i.nanos < 1_000_000_000);
}
