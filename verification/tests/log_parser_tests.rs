use chrono::TimeZone;
use vrcwatchdog_core::log_parser::event::LogEvent;
use vrcwatchdog_core::log_parser::log_filename::derive_log_sequence_key;
use vrcwatchdog_core::log_parser::parse::parse_line;
use vrcwatchdog_core::time::naive::{NaiveLocal, UtcTime};

fn nd(y: i32, m: u32, d: u32, h: u32, mi: u32, s: u32) -> NaiveLocal {
    NaiveLocal { year: y, month: m, day: d, hour: h, minute: mi, second: s, nanosecond: 0 }
}

fn ut(y: i32, m: u32, d: u32, h: u32, mi: u32, s: u32) -> UtcTime {
    let t = chrono::Utc.with_ymd_and_hms(y, m, d, h, mi, s).unwrap();
    UtcTime { secs: t.timestamp(), nanos: 0 }
}

#[test]
fn parses_room_entering() {
    let line = "2026.05.09 21:43:56 Log        -  [Behaviour] Entering Room: HomeWorld";
    let p = parse_line(line).unwrap();
    assert_eq!(p.naive_local, nd(2026, 5, 9, 21, 43, 56));
    assert_eq!(p.event, LogEvent::RoomEntering { world_name: "HomeWorld".into() });
}

#[test]
fn parses_room_joining_with_instance() {
    let line = "2026.05.09 21:43:57 Log        -  [Behaviour] Joining wrld_abcd1234-ef00-1111-2222-3333abcd5678:12345~hidden(usr_xxx)~region(jp)";
    let p = parse_line(line).unwrap();
    assert_eq!(
        p.event,
        LogEvent::RoomJoining {
            world_id: "wrld_abcd1234-ef00-1111-2222-3333abcd5678".into(),
            instance_id: "12345~hidden(usr_xxx)~region(jp)".into()
        }
    );
}

#[test]
fn parses_user_authenticated() {
    let line = "2026.05.09 21:00:00 Log        -  User Authenticated: kqnade";
    let p = parse_line(line).unwrap();
    assert_eq!(p.event, LogEvent::UserAuthenticated { display_name: "kqnade".into() });
}

#[test]
fn parses_player_joined_with_user_id() {
    let line = "2026.05.09 21:50:00 Log        -  [Behaviour] OnPlayerJoined Alice (usr_11111111-2222-3333-4444-555566667777)";
    let p = parse_line(line).unwrap();
    assert_eq!(
        p.event,
        LogEvent::PlayerJoined {
            display_name: "Alice".into(),
            user_id: Some("usr_11111111-2222-3333-4444-555566667777".into())
        }
    );
}

#[test]
fn parses_player_joined_without_user_id_legacy() {
    let line = "2026.05.09 21:50:00 Log        -  [Behaviour] OnPlayerJoined Bob";
    let p = parse_line(line).unwrap();
    assert_eq!(p.event, LogEvent::PlayerJoined { display_name: "Bob".into(), user_id: None });
}

#[test]
fn parses_player_left() {
    let line = "2026.05.09 22:00:00 Log        -  [Behaviour] OnPlayerLeft Alice (usr_11111111-2222-3333-4444-555566667777)";
    let p = parse_line(line).unwrap();
    assert_eq!(
        p.event,
        LogEvent::PlayerLeft {
            display_name: "Alice".into(),
            user_id: Some("usr_11111111-2222-3333-4444-555566667777".into())
        }
    );
}

#[test]
fn parses_notification_invite() {
    let line = "2026.05.09 22:30:00 Log        -  Received Notification: <Notification from username:Alice, sender user id:usr_xxx ... type:invite>";
    let p = parse_line(line).unwrap();
    assert_eq!(p.event, LogEvent::Notification { sender: "Alice".into(), ntype: "invite".into() });
}

#[test]
fn parses_notification_request_invite() {
    let line = "2026.05.09 22:31:00 Log        -  Received Notification: <Notification from username:Bob, ... type:requestInvite>";
    let p = parse_line(line).unwrap();
    assert_eq!(p.event, LogEvent::Notification { sender: "Bob".into(), ntype: "requestInvite".into() });
}

#[test]
fn parses_notification_boop() {
    let line = "2026.05.09 22:32:00 Log        -  Received Notification: <Notification from username:Charlie, ... type:boop>";
    let p = parse_line(line).unwrap();
    assert_eq!(p.event, LogEvent::Notification { sender: "Charlie".into(), ntype: "boop".into() });
}

#[test]
fn parses_video_url() {
    let line = "2026.05.09 22:40:00 Log        -  [Video Playback] AVProVideoMain Attempting to resolve URL 'https://www.youtube.com/watch?v=dQw4w9WgXcQ' from player";
    let p = parse_line(line).unwrap();
    assert_eq!(p.event, LogEvent::VideoUrl { url: "https://www.youtube.com/watch?v=dQw4w9WgXcQ".into() });
}

#[test]
fn unknown_line_with_timestamp_yields_unparsable() {
    let line = "2026.05.09 21:00:00 Log        -  Some unknown framework chatter that does not match";
    let p = parse_line(line).unwrap();
    assert!(matches!(p.event, LogEvent::UnparsableLine { .. }));
}

#[test]
fn line_without_timestamp_returns_none() {
    assert!(parse_line("VRChat Build 2026.5.9").is_none());
    assert!(parse_line("").is_none());
    assert!(parse_line("\r\n").is_none());
}

#[test]
fn handles_crlf_endings() {
    let line = "2026.05.09 21:43:56 Log        -  [Behaviour] Entering Room: HomeWorld\r\n";
    let p = parse_line(line).unwrap();
    assert_eq!(p.event, LogEvent::RoomEntering { world_name: "HomeWorld".into() });
}

#[test]
fn world_name_with_special_chars_preserved() {
    let line = "2026.05.09 21:43:56 Log        -  [Behaviour] Entering Room: 私のお気に入り! [v2.1] 🎮";
    let p = parse_line(line).unwrap();
    assert_eq!(p.event, LogEvent::RoomEntering { world_name: "私のお気に入り! [v2.1] 🎮".into() });
}

#[test]
fn type_tag_returns_static_kind() {
    let cases = [
        (LogEvent::RoomEntering { world_name: "x".into() }, "RoomEntering"),
        (LogEvent::RoomJoining { world_id: "w".into(), instance_id: "i".into() }, "RoomJoining"),
        (LogEvent::UnparsableLine { reason: "x".into() }, "UnparsableLine"),
    ];
    for (e, expected) in cases {
        assert_eq!(e.type_tag(), expected);
    }
}

#[test]
fn extracts_from_standard_vrchat_filename() {
    let key = derive_log_sequence_key("/some/dir/output_log_2026-05-09_21-43-56.txt", ut(2030, 1, 1, 0, 0, 0));
    assert_eq!(key, "2026-05-09_21-43-56");
}

#[test]
fn falls_back_to_creation_time_when_filename_unmatched() {
    let key = derive_log_sequence_key("/some/dir/random_name.log", ut(2026, 5, 9, 12, 0, 0));
    assert_eq!(key, "2026-05-09T12:00:00Z");
}

#[test]
fn falls_back_when_path_has_no_filename() {
    let key = derive_log_sequence_key("/", ut(2026, 5, 9, 12, 0, 0));
    assert_eq!(key, "2026-05-09T12:00:00Z");
}

#[test]
fn standard_filenames_sort_chronologically() {
    let mut keys = vec![
        derive_log_sequence_key("output_log_2026-05-09_21-43-56.txt", ut(2030, 1, 1, 0, 0, 0)),
        derive_log_sequence_key("output_log_2026-05-08_10-00-00.txt", ut(2030, 1, 1, 0, 0, 0)),
        derive_log_sequence_key("output_log_2026-05-09_22-00-00.txt", ut(2030, 1, 1, 0, 0, 0)),
    ];
    keys.sort();
    assert_eq!(keys, vec!["2026-05-08_10-00-00", "2026-05-09_21-43-56", "2026-05-09_22-00-00"]);
}

// ---- further cases of the line grammar

#[test]
fn leap_second_timestamp_is_kept_as_second_59_plus_one_second() {
    let p = parse_line("2016.12.31 23:59:60 Log        -  User Authenticated: a").unwrap();
    assert_eq!(p.naive_local.second, 59);
    assert_eq!(p.naive_local.nanosecond, 1_000_000_000);
}

#[test]
fn impossible_calendar_date_is_no_timestamp() {
    assert!(parse_line("2026.02.30 10:00:00 Log        -  User Authenticated: a").is_none());
    assert!(parse_line("2026.05.09 24:00:00 Log        -  User Authenticated: a").is_none());
}

#[test]
fn trailing_white_space_is_not_part_of_a_capture() {
    let p = parse_line("2026.05.09 21:43:56 Log        -  [Behaviour] Entering Room: Home   ").unwrap();
    assert_eq!(p.event, LogEvent::RoomEntering { world_name: "Home".into() });
}

#[test]
fn sequence_key_of_a_windows_path_uses_the_file_name() {
    let key = derive_log_sequence_key(
        "C:\\Users\\u\\AppData\\LocalLow\\VRChat\\VRChat\\output_log_2026-05-09_21-43-56.txt",
        ut(2030, 1, 1, 0, 0, 0),
    );
    assert_eq!(key, "2026-05-09_21-43-56");
}

#[test]
fn sequence_key_accepts_unicode_decimal_digits_as_regex_does() {
    // `\d` is Unicode `Decimal_Number`: Arabic-Indic digits count.
    let key = derive_log_sequence_key("/d/output_log_٢٠٢٦-05-09_21-43-56.txt", ut(2030, 1, 1, 0, 0, 0));
    assert_eq!(key, "٢٠٢٦-05-09_21-43-56");
}
