use novaforge::asset_editor::format_system_time;
use novaforge::calendar::days_to_ymd;

/// Days from 1970-01-01, counted by walking the calendar.
fn naive_days(y: i64, m: u32, d: u32) -> i64 {
    let leap = |y: i64| (y % 4 == 0 && y % 100 != 0) || y % 400 == 0;
    let mut days = 0i64;
    for yy in 1970..y {
        days += if leap(yy) { 366 } else { 365 };
    }
    let lens = [31, if leap(y) { 29 } else { 28 }, 31, 30, 31, 30, 31, 31, 30, 31, 30, 31];
    for mm in 0..(m - 1) as usize {
        days += lens[mm];
    }
    days + d as i64 - 1
}

#[test]
fn days_to_ymd_known_dates() {
    assert_eq!(days_to_ymd(0), (1970, 1, 1));
    assert_eq!(days_to_ymd(31), (1970, 2, 1));
    assert_eq!(days_to_ymd(59), (1970, 3, 1));
    assert_eq!(days_to_ymd(365), (1971, 1, 1));
    assert_eq!(days_to_ymd(10_957), (2000, 1, 1));
    assert_eq!(days_to_ymd(11_016), (2000, 2, 29));
    assert_eq!(days_to_ymd(11_017), (2000, 3, 1));
    assert_eq!(days_to_ymd(19_782), (2024, 2, 29));
    assert_eq!(days_to_ymd(47_541), (2100, 3, 1));
}

#[test]
fn days_to_ymd_matches_calendar_walk() {
    for days in (0u64..150_000).step_by(37) {
        let (y, m, d) = days_to_ymd(days);
        assert_eq!(naive_days(y as i64, m, d), days as i64, "day {days}");
    }
}

#[test]
fn days_to_ymd_wraps_negative_day_counts() {
    // u64::MAX reads as day -1, 1969-12-31.
    assert_eq!(days_to_ymd(u64::MAX), (1969, 12, 31));
    // Year 1 BC (year 0) and earlier wrap modulo 2^32.
    let (y, m, d) = days_to_ymd((-719_529i64) as u64);
    assert_eq!((y, m, d), (u32::MAX, 12, 31));
}

#[test]
fn format_system_time_examples() {
    assert_eq!(format_system_time(Some(0)), "1970-01-01 00:00:00 UTC");
    assert_eq!(format_system_time(Some(1_762_179_727)), "2025-11-03 14:22:07 UTC");
    assert_eq!(format_system_time(Some(951_782_400 + 3_599)), "2000-02-29 00:59:59 UTC");
    assert_eq!(format_system_time(None), "—");
}

#[test]
fn format_system_time_far_future_pads_and_wraps() {
    let text = format_system_time(Some(u64::MAX));
    assert!(text.ends_with(" UTC"));
    assert_eq!(text.len(), format_system_time(Some(u64::MAX)).len());
}
