use chrono::TimeZone;
use vrcwatchdog_core::time::duration::{format_duration_hms, seconds_between};
use vrcwatchdog_core::time::naive::{format_iso_utc, format_naive, utc_to_civil, NaiveLocal, UtcTime};
use vrcwatchdog_core::time::resolve::{resolve_local_to_utc, zone_known, Resolution};

fn naive(y: i32, m: u32, d: u32, h: u32, mi: u32, s: u32) -> NaiveLocal {
    NaiveLocal { year: y, month: m, day: d, hour: h, minute: mi, second: s, nanosecond: 0 }
}

fn utc(y: i32, m: u32, d: u32, h: u32, mi: u32, s: u32) -> UtcTime {
    let t = chrono::Utc.with_ymd_and_hms(y, m, d, h, mi, s).unwrap();
    UtcTime { secs: t.timestamp(), nanos: 0 }
}

fn key(t: UtcTime) -> (i64, u32) {
    (t.secs, t.nanos)
}

#[test]
fn formats_zero_duration() {
    assert_eq!(format_duration_hms(0), "00:00:00");
}

#[test]
fn formats_under_one_hour() {
    assert_eq!(format_duration_hms(3 * 60 + 7), "00:03:07");
}

#[test]
fn formats_one_hour_boundary() {
    assert_eq!(format_duration_hms(3600), "01:00:00");
    assert_eq!(format_duration_hms(3599), "00:59:59");
}

#[test]
fn formats_just_under_24h() {
    assert_eq!(format_duration_hms(23 * 3600 + 59 * 60 + 59), "23:59:59");
}

#[test]
fn formats_over_24h_without_wrap() {
    assert_eq!(format_duration_hms(25 * 3600 + 30 * 60), "25:30:00");
    assert_eq!(format_duration_hms(48 * 3600), "48:00:00");
}

#[test]
fn formats_long_durations_without_zero_pad_when_three_digits() {
    assert_eq!(format_duration_hms(100 * 3600 + 5 * 60 + 9), "100:05:09");
    assert_eq!(format_duration_hms(999 * 3600), "999:00:00");
}

#[test]
fn negative_duration_returns_placeholder() {
    assert_eq!(format_duration_hms(-1), "--:--:--");
    assert_eq!(format_duration_hms(-3600), "--:--:--");
}

#[test]
fn seconds_between_truncates_toward_zero() {
    assert_eq!(seconds_between(UtcTime { secs: 10, nanos: 999_999_999 }, UtcTime { secs: 0, nanos: 0 }), 10);
    assert_eq!(seconds_between(UtcTime { secs: 0, nanos: 0 }, UtcTime { secs: 10, nanos: 999_999_999 }), -10);
    assert_eq!(seconds_between(utc(2026, 5, 10, 13, 0, 0), utc(2026, 5, 10, 12, 0, 0)), 3600);
}

#[test]
fn resolves_single_in_jst() {
    let (got_utc, offset, res) = resolve_local_to_utc(&naive(2026, 5, 9, 21, 43, 56), "Asia/Tokyo", None);
    assert_eq!(res, Resolution::Single);
    assert_eq!(offset, 9 * 3600);
    assert_eq!(got_utc, utc(2026, 5, 9, 12, 43, 56));
}

#[test]
fn resolves_gap_pushes_to_next_valid_local() {
    let (got_utc, offset, res) = resolve_local_to_utc(&naive(2026, 3, 29, 1, 30, 0), "Europe/London", None);
    assert_eq!(res, Resolution::Gap);
    assert_eq!(offset, 3600);
    assert_eq!(got_utc, utc(2026, 3, 29, 1, 0, 0));
}

#[test]
fn resolves_ambiguous_first_when_no_prev() {
    let (got_utc, offset, res) = resolve_local_to_utc(&naive(2026, 10, 25, 1, 30, 0), "Europe/London", None);
    assert_eq!(res, Resolution::AmbiguousFirst);
    assert_eq!(offset, 3600);
    assert_eq!(got_utc, utc(2026, 10, 25, 0, 30, 0));
}

#[test]
fn resolves_ambiguous_second_when_prev_forces_monotonic() {
    let prev = Some(utc(2026, 10, 25, 0, 45, 0));
    let (got_utc, offset, res) = resolve_local_to_utc(&naive(2026, 10, 25, 1, 30, 0), "Europe/London", prev);
    assert_eq!(res, Resolution::AmbiguousSecond);
    assert_eq!(offset, 0);
    assert_eq!(got_utc, utc(2026, 10, 25, 1, 30, 0));
}

#[test]
fn monotonic_across_dst_fall_back_with_prev_chain() {
    let times = [
        naive(2026, 10, 25, 0, 30, 0),
        naive(2026, 10, 25, 1, 30, 0),
        naive(2026, 10, 25, 1, 30, 0),
        naive(2026, 10, 25, 2, 30, 0),
    ];
    let expected_res = [Resolution::Single, Resolution::AmbiguousFirst, Resolution::AmbiguousSecond, Resolution::Single];
    let mut prev: Option<UtcTime> = None;
    let mut utcs = Vec::new();
    let mut resolutions = Vec::new();
    for n in times {
        let (got_utc, _o, r) = resolve_local_to_utc(&n, "Europe/London", prev);
        utcs.push(key(got_utc));
        resolutions.push(r);
        prev = Some(got_utc);
    }
    assert!(utcs.windows(2).all(|w| w[0] < w[1]), "not monotonic: {utcs:?}");
    assert_eq!(resolutions.as_slice(), expected_res.as_slice());
}

#[test]
fn monotonic_across_dst_spring_forward() {
    let times = [naive(2026, 3, 29, 0, 30, 0), naive(2026, 3, 29, 1, 30, 0), naive(2026, 3, 29, 2, 30, 0)];
    let expected_res = [Resolution::Single, Resolution::Gap, Resolution::Single];
    let mut prev: Option<UtcTime> = None;
    let mut utcs = Vec::new();
    let mut resolutions = Vec::new();
    for n in times {
        let (got_utc, _o, r) = resolve_local_to_utc(&n, "Europe/London", prev);
        utcs.push(key(got_utc));
        resolutions.push(r);
        prev = Some(got_utc);
    }
    assert!(utcs.windows(2).all(|w| w[0] < w[1]), "not monotonic: {utcs:?}");
    assert_eq!(resolutions.as_slice(), expected_res.as_slice());
}

#[test]
fn resolution_as_str_roundtrip() {
    for r in [Resolution::Single, Resolution::AmbiguousFirst, Resolution::AmbiguousSecond, Resolution::Gap] {
        let s = r.as_str();
        assert!(!s.is_empty());
    }
}

#[test]
fn resolution_texts_are_distinct() {
    let all = [Resolution::Single, Resolution::AmbiguousFirst, Resolution::AmbiguousSecond, Resolution::Gap];
    for a in all {
        for b in all {
            assert_eq!(a == b, a.as_str() == b.as_str());
        }
    }
}

#[test]
fn unknown_zone_is_not_known() {
    assert!(zone_known("Asia/Tokyo"));
    assert!(!zone_known("Mars/Olympus"));
}

#[test]
fn naive_and_iso_formats() {
    let n = naive(2026, 5, 9, 7, 3, 1);
    assert_eq!(format_naive(&n), "2026-05-09 07:03:01");
    assert_eq!(format_iso_utc(&n), "2026-05-09T07:03:01Z");
    let leap = NaiveLocal { year: 2016, month: 12, day: 31, hour: 23, minute: 59, second: 59, nanosecond: 1_000_000_000 };
    assert_eq!(format_naive(&leap), "2016-12-31 23:59:60");
    let far = naive(12345, 1, 2, 3, 4, 5);
    assert_eq!(format_naive(&far), "+12345-01-02 03:04:05");
}

#[test]
fn utc_to_civil_reads_the_calendar() {
    let t = utc(2026, 5, 10, 12, 30, 15);
    assert_eq!(utc_to_civil(t), Some(naive(2026, 5, 10, 12, 30, 15)));
    assert_eq!(utc_to_civil(UtcTime { secs: i64::MAX, nanos: 0 }), None);
}
