use chrono::TimeZone;
use vrcwatchdog_core::log_watcher::fs_event::FsEvent;
use vrcwatchdog_core::photo_scanner::actor::{
    has_image_extension, photo_event_step, scan_entry_action, tally_reconcile, HandleOutcome,
    PhotoEventStep, ReconcileOutcome, ScanEntry,
};
use vrcwatchdog_core::photo_scanner::filename::{parse_vrchat_filename, VRChatPhotoMeta};
use vrcwatchdog_core::photo_scanner::ingest::{
    plan_photo_ingest, IngestOutcome, IngestPlan, SkipReason,
};
use vrcwatchdog_core::photo_scanner::visit_matcher::{match_photo_to_visit, WorldVisitTimeRange};
use vrcwatchdog_core::time::naive::{NaiveLocal, UtcTime};

fn nd(y: i32, m: u32, d: u32, h: u32, mi: u32, s: u32) -> NaiveLocal {
    NaiveLocal { year: y, month: m, day: d, hour: h, minute: mi, second: s, nanosecond: 0 }
}

fn nd_milli(y: i32, m: u32, d: u32, h: u32, mi: u32, s: u32, milli: u32) -> NaiveLocal {
    NaiveLocal { year: y, month: m, day: d, hour: h, minute: mi, second: s, nanosecond: milli * 1_000_000 }
}

#[test]
fn parses_standard_filename_with_fractional_seconds_and_resolution() {
    let got = parse_vrchat_filename("VRChat_2026-05-10_12-34-56.789_1920x1080.png");
    assert_eq!(
        got,
        Some(VRChatPhotoMeta { taken_naive_local: nd_milli(2026, 5, 10, 12, 34, 56, 789), resolution: Some((1920, 1080)) })
    );
}

#[test]
fn parses_filename_without_fractional_seconds() {
    let got = parse_vrchat_filename("VRChat_2026-05-10_12-34-56_1920x1080.png");
    assert_eq!(got, Some(VRChatPhotoMeta { taken_naive_local: nd(2026, 5, 10, 12, 34, 56), resolution: Some((1920, 1080)) }));
}

#[test]
fn parses_filename_without_resolution_segment() {
    let got = parse_vrchat_filename("VRChat_2026-05-10_12-34-56.png");
    assert_eq!(got, Some(VRChatPhotoMeta { taken_naive_local: nd(2026, 5, 10, 12, 34, 56), resolution: None }));
}

#[test]
fn parses_jpg_and_jpeg_extensions_in_addition_to_png() {
    assert!(parse_vrchat_filename("VRChat_2026-05-10_12-34-56.png").is_some());
    assert!(parse_vrchat_filename("VRChat_2026-05-10_12-34-56.jpg").is_some());
    assert!(parse_vrchat_filename("VRChat_2026-05-10_12-34-56.jpeg").is_some());
}

#[test]
fn parses_uppercase_extension_case_insensitively() {
    assert!(parse_vrchat_filename("VRChat_2026-05-10_12-34-56.PNG").is_some());
}

#[test]
fn rejects_non_vrchat_prefix_filename() {
    assert!(parse_vrchat_filename("Discord_2026-05-10_12-34-56.png").is_none());
}

#[test]
fn rejects_empty_string() {
    assert!(parse_vrchat_filename("").is_none());
}

#[test]
fn rejects_filename_with_path_separators() {
    assert!(parse_vrchat_filename("C:/Users/Foo/VRChat_2026-05-10_12-34-56.png").is_none());
}

#[test]
fn rejects_invalid_date_components() {
    assert!(parse_vrchat_filename("VRChat_2026-13-99_12-34-56.png").is_none());
}

#[test]
fn rejects_partial_match_inside_longer_name() {
    assert!(parse_vrchat_filename("VRChat_2026-05-10_12-34-56.png.bak").is_none());
}

#[test]
fn rejects_tmp_extension_used_by_inflight_writes() {
    assert!(parse_vrchat_filename("VRChat_2026-05-10_12-34-56.tmp").is_none());
}

#[test]
fn fraction_beyond_nine_digits_is_cut_and_short_ones_scaled() {
    let got = parse_vrchat_filename("VRChat_2026-05-10_12-34-56.1234567891_10x20.jpg").unwrap();
    assert_eq!(got.taken_naive_local.nanosecond, 123_456_789);
    let got = parse_vrchat_filename("VRChat_2026-05-10_12-34-56.5.png").unwrap();
    assert_eq!(got.taken_naive_local.nanosecond, 500_000_000);
}

#[test]
fn name_is_read_without_regard_to_ascii_case_and_sizes_must_fit() {
    assert_eq!(
        parse_vrchat_filename("vrchat_2026-05-10_12-34-56_640X480.JpEg").unwrap().resolution,
        Some((640, 480))
    );
    assert!(parse_vrchat_filename("VRChat_2026-05-10_12-34-56_4294967296x1.png").is_none());
    assert!(parse_vrchat_filename("VRChat_2026-05-10_12-34-56_4294967295x1.png").is_some());
}

#[test]
fn leap_second_in_name_is_kept() {
    let got = parse_vrchat_filename("VRChat_2016-12-31_23-59-60.250.png").unwrap();
    assert_eq!(got.taken_naive_local.second, 59);
    assert_eq!(got.taken_naive_local.nanosecond, 1_250_000_000);
}

fn utc(y: i32, m: u32, d: u32, h: u32, mi: u32, s: u32) -> UtcTime {
    let t = chrono::Utc.with_ymd_and_hms(y, m, d, h, mi, s).unwrap();
    UtcTime { secs: t.timestamp(), nanos: 0 }
}

fn closed(id: i64, joined: UtcTime, left: UtcTime) -> WorldVisitTimeRange {
    WorldVisitTimeRange { id, joined_utc: joined, left_utc: Some(left) }
}

fn ongoing(id: i64, joined: UtcTime) -> WorldVisitTimeRange {
    WorldVisitTimeRange { id, joined_utc: joined, left_utc: None }
}

#[test]
fn returns_none_when_visits_is_empty() {
    assert!(match_photo_to_visit(&[], utc(2026, 5, 10, 12, 0, 0)).is_none());
}

#[test]
fn returns_none_when_photo_taken_before_any_visit_started() {
    let visits = [closed(1, utc(2026, 5, 10, 13, 0, 0), utc(2026, 5, 10, 14, 0, 0))];
    assert!(match_photo_to_visit(&visits, utc(2026, 5, 10, 12, 0, 0)).is_none());
}

#[test]
fn returns_visit_id_when_photo_falls_inside_visit_interval() {
    let visits = [closed(42, utc(2026, 5, 10, 12, 0, 0), utc(2026, 5, 10, 13, 0, 0))];
    assert_eq!(match_photo_to_visit(&visits, utc(2026, 5, 10, 12, 30, 0)), Some(42));
}

#[test]
fn matches_photo_taken_at_exactly_joined_utc_boundary() {
    let joined = utc(2026, 5, 10, 12, 0, 0);
    let visits = [closed(7, joined, utc(2026, 5, 10, 13, 0, 0))];
    assert_eq!(match_photo_to_visit(&visits, joined), Some(7));
}

#[test]
fn does_not_match_photo_taken_at_exactly_left_utc_boundary() {
    let left = utc(2026, 5, 10, 13, 0, 0);
    let visits = [closed(7, utc(2026, 5, 10, 12, 0, 0), left)];
    assert!(match_photo_to_visit(&visits, left).is_none());
}

#[test]
fn returns_none_when_photo_falls_between_two_consecutive_visits() {
    let visits = [
        closed(1, utc(2026, 5, 10, 12, 0, 0), utc(2026, 5, 10, 12, 30, 0)),
        closed(2, utc(2026, 5, 10, 13, 0, 0), utc(2026, 5, 10, 13, 30, 0)),
    ];
    assert!(match_photo_to_visit(&visits, utc(2026, 5, 10, 12, 45, 0)).is_none());
}

#[test]
fn matches_photo_within_ongoing_visit_with_no_left_utc() {
    let visits = [ongoing(99, utc(2026, 5, 10, 12, 0, 0))];
    assert_eq!(match_photo_to_visit(&visits, utc(2026, 5, 10, 23, 0, 0)), Some(99));
}

#[test]
fn returns_none_for_photo_taken_before_ongoing_visit_started() {
    let visits = [ongoing(99, utc(2026, 5, 10, 12, 0, 0))];
    assert!(match_photo_to_visit(&visits, utc(2026, 5, 10, 11, 59, 59)).is_none());
}

#[test]
fn picks_correct_visit_from_a_chain_of_three() {
    let visits = [
        closed(1, utc(2026, 5, 10, 12, 0, 0), utc(2026, 5, 10, 13, 0, 0)),
        closed(2, utc(2026, 5, 10, 14, 0, 0), utc(2026, 5, 10, 15, 0, 0)),
        closed(3, utc(2026, 5, 10, 16, 0, 0), utc(2026, 5, 10, 17, 0, 0)),
    ];
    assert_eq!(match_photo_to_visit(&visits, utc(2026, 5, 10, 14, 30, 0)), Some(2));
}

#[test]
fn picks_latest_ongoing_visit_when_multiple_visits_share_join_le_photo() {
    let visits = [closed(1, utc(2026, 5, 10, 10, 0, 0), utc(2026, 5, 10, 11, 0, 0)), ongoing(2, utc(2026, 5, 10, 12, 0, 0))];
    assert_eq!(match_photo_to_visit(&visits, utc(2026, 5, 10, 13, 0, 0)), Some(2));
}

#[test]
fn handles_thousand_visits_and_returns_correct_match() {
    let base = utc(2026, 1, 1, 0, 0, 0);
    let mut visits = Vec::with_capacity(1000);
    for i in 0..1000i64 {
        let joined = UtcTime { secs: base.secs + 60 * i, nanos: 0 };
        let left = UtcTime { secs: joined.secs + 30, nanos: 0 };
        visits.push(WorldVisitTimeRange { id: i + 1, joined_utc: joined, left_utc: Some(left) });
    }
    let photo = UtcTime { secs: base.secs + 500 * 60 + 15, nanos: 0 };
    assert_eq!(match_photo_to_visit(&visits, photo), Some(501));
}

#[test]
fn fraction_of_a_second_decides_at_the_boundary() {
    let joined = UtcTime { secs: 100, nanos: 500 };
    let visits = [closed(1, joined, UtcTime { secs: 200, nanos: 0 })];
    assert!(match_photo_to_visit(&visits, UtcTime { secs: 100, nanos: 499 }).is_none());
    assert_eq!(match_photo_to_visit(&visits, UtcTime { secs: 199, nanos: 999_999_999 }), Some(1));
}

// ---- ingest decisions

#[test]
fn ingest_plan_records_vrchat_photo_in_capture_zone() {
    let visits = [closed(5, utc(2026, 5, 10, 12, 0, 0), utc(2026, 5, 10, 13, 0, 0))];
    let plan = plan_photo_ingest("C:/photos/VRChat_2026-05-10_21-30-00_1920x1080.png", &visits, "Asia/Tokyo");
    match plan {
        IngestPlan::Record(rec) => {
            assert_eq!(rec.file_name, "VRChat_2026-05-10_21-30-00_1920x1080.png");
            assert_eq!(rec.file_path, "C:/photos/VRChat_2026-05-10_21-30-00_1920x1080.png");
            assert_eq!(rec.taken_utc, utc(2026, 5, 10, 12, 30, 0));
            assert_eq!(rec.taken_offset_seconds, 9 * 3600);
            assert_eq!(rec.taken_resolution, "Single");
            assert_eq!(rec.taken_tz_id, "Asia/Tokyo");
            assert_eq!(rec.taken_tz_source, "CapturedRealtime");
            assert_eq!(rec.taken_resolution_confidence, "High");
            assert_eq!(rec.thumb_sha, None);
            assert_eq!(rec.world_visit_id, Some(5));
        }
        other => panic!("expected a record, got {other:?}"),
    }
}

#[test]
fn ingest_plan_skips_tmp_other_names_and_root() {
    assert_eq!(plan_photo_ingest("C:/photos/VRChat_2026-05-10_12-34-56.tmp", &[], "Asia/Tokyo"), IngestPlan::Skip(SkipReason::InflightTmp));
    assert_eq!(plan_photo_ingest("C:/photos/shot.TMP", &[], "Asia/Tokyo"), IngestPlan::Skip(SkipReason::InflightTmp));
    assert_eq!(plan_photo_ingest("C:/photos/Discord_2026-05-10_12-34-56.png", &[], "Asia/Tokyo"), IngestPlan::Skip(SkipReason::NotVRChatFilename));
    assert_eq!(plan_photo_ingest("/", &[], "Asia/Tokyo"), IngestPlan::Skip(SkipReason::NoFileNameComponent));
}

#[test]
fn image_extensions_are_png_jpg_jpeg_in_any_case() {
    assert!(has_image_extension("/p/a.PNG"));
    assert!(has_image_extension("/p/a.jpeg"));
    assert!(!has_image_extension("/p/a.tmp"));
    assert!(!has_image_extension("/p/.png"));
    assert!(!has_image_extension("/p/png"));
}

#[test]
fn rescan_walks_directories_collects_pictures_and_skips_hidden() {
    assert_eq!(scan_entry_action("/p/2026-05", Some((true, false))), ScanEntry::Descend);
    assert_eq!(scan_entry_action("/p/.thumbnails", Some((true, false))), ScanEntry::Ignore);
    assert_eq!(scan_entry_action("/p/a.png", Some((false, true))), ScanEntry::Collect);
    assert_eq!(scan_entry_action("/p/a.txt", Some((false, true))), ScanEntry::Ignore);
    assert_eq!(scan_entry_action("/p/a.png", None), ScanEntry::Ignore);
}

#[test]
fn photo_events_and_rescan_tally() {
    assert_eq!(photo_event_step(FsEvent::PathChanged("x".into())), PhotoEventStep::IngestPath("x".into()));
    assert_eq!(photo_event_step(FsEvent::PathRemoved("x".into())), PhotoEventStep::Done(HandleOutcome::Removed));
    assert_eq!(photo_event_step(FsEvent::QueueOverflow), PhotoEventStep::Done(HandleOutcome::OverflowAck));
    let r = tally_reconcile(&[
        IngestOutcome::Recorded { id: 1, world_visit_id: None },
        IngestOutcome::Skipped(SkipReason::NotVRChatFilename),
        IngestOutcome::Recorded { id: 2, world_visit_id: Some(3) },
    ]);
    assert_eq!(r, ReconcileOutcome { considered: 3, recorded: 2, skipped: 1 });
}

#[test]
fn windows_paths_split_at_backslashes() {
    let path = "C:\\Users\\u\\Pictures\\VRChat\\2026-05\\VRChat_2026-05-10_21-30-00_1920x1080.png";
    match plan_photo_ingest(path, &[], "Asia/Tokyo") {
        IngestPlan::Record(rec) => {
            assert_eq!(rec.file_name, "VRChat_2026-05-10_21-30-00_1920x1080.png");
            assert_eq!(rec.file_path, path);
        }
        other => panic!("expected a record, got {other:?}"),
    }
    assert!(has_image_extension("C:\\x\\shot.PNG"));
}
