use vrcwatchdog_core::db::rows::{PhotoRecord, VideoRecord, VisitWithCounts};
use vrcwatchdog_core::ipc::commands::{
    handle_get_settings, handle_open_photo, handle_open_photo_folder, OpenPhotoError,
    PhotoRecordDto, SelfPlayerDto, VideoDto, VisitDto,
};
use vrcwatchdog_core::ipc::events::{
    FATAL_CORRUPTION, HEALTH_STATUS, INGEST_PROGRESS, ONEDRIVE_WARNING, SETTINGS_CORRUPT_WARNING,
    UNKNOWN_LOG_FORMAT,
};
use vrcwatchdog_core::photo::access::{validate_photo_path, PhotoAccessError, PhotoPathFacts, PhotoTarget};
use vrcwatchdog_core::settings::Settings;
use vrcwatchdog_core::time::naive::{NaiveLocal, UtcTime};

fn noon() -> NaiveLocal {
    NaiveLocal { year: 2026, month: 5, day: 10, hour: 12, minute: 0, second: 0, nanosecond: 0 }
}

/// What the shell learns from the file system for a file that exists as a regular file
/// directly inside `scope` (already canonical).
fn present(scope: &str, name: &str) -> PhotoPathFacts {
    PhotoPathFacts {
        canonical_scope: Some(scope.to_string()),
        canonical_file: Some(format!("{scope}/{name}")),
        is_regular_file: Some(true),
    }
}

fn validate(name: &str, scope: &str, facts: PhotoPathFacts, target: PhotoTarget) -> Result<String, PhotoAccessError> {
    validate_photo_path(&format!("{scope}/{name}"), scope, facts, target)
}

#[test]
fn get_settings_returns_clone() {
    let s = Settings { locale: "en".into(), ..Settings::default() };
    let got = handle_get_settings(&s);
    assert_eq!(got, s);
}

#[test]
fn event_names_are_namespaced() {
    for name in [HEALTH_STATUS, SETTINGS_CORRUPT_WARNING, ONEDRIVE_WARNING, FATAL_CORRUPTION, INGEST_PROGRESS, UNKNOWN_LOG_FORMAT] {
        assert!(name.starts_with("vrcwatchdog://"), "event name {name} must be namespaced");
    }
}

#[test]
fn open_photo_fails_when_scope_not_configured() {
    let s = Settings::default();
    let err = handle_open_photo("/scope/shot.png", &s, present("/scope", "shot.png")).expect_err("must fail");
    assert_eq!(err, OpenPhotoError::ScopeNotConfigured);
}

#[test]
fn photo_record_dto_from_record_builds_thumb_path_from_thumb_dir_and_sha() {
    let record = PhotoRecord {
        id: 1,
        file_path: "C:/photos/x.png".into(),
        file_name: "x.png".into(),
        taken_naive_local: noon(),
        taken_utc: UtcTime { secs: 1_778_382_000, nanos: 0 },
        thumb_sha: Some("abc123".into()),
        world_visit_id: None,
        world_name: None,
    };
    let dto = PhotoRecordDto::from_record(record, Some("C:/cache/thumbs"));
    assert_eq!(dto.thumb_path, Some("C:/cache/thumbs/abc123.webp".to_string()));
    assert_eq!(dto.taken_naive_local, "2026-05-10 12:00:00");
}

#[test]
fn photo_record_dto_from_record_returns_none_thumb_path_when_thumb_sha_missing() {
    let record = PhotoRecord {
        id: 1,
        file_path: "C:/photos/x.png".into(),
        file_name: "x.png".into(),
        taken_naive_local: noon(),
        taken_utc: UtcTime { secs: 1_778_382_000, nanos: 0 },
        thumb_sha: None,
        world_visit_id: None,
        world_name: None,
    };
    let dto = PhotoRecordDto::from_record(record, Some("C:/cache/thumbs"));
    assert!(dto.thumb_path.is_none(), "no thumbnail path without a digest");
}

#[test]
fn jpeg_jpg_webp_all_allowed() {
    for name in ["a.jpg", "b.jpeg", "c.webp", "d.PNG"] {
        assert!(validate(name, "/scope", present("/scope", name), PhotoTarget::Photo).is_ok(), "should allow {}", name);
    }
}

#[test]
fn unknown_extension_rejected() {
    let err = validate("evil.exe", "/scope", present("/scope", "evil.exe"), PhotoTarget::Photo).expect_err("expected validation error");
    assert!(matches!(err, PhotoAccessError::InvalidExtension(_)));
}

#[test]
fn missing_extension_rejected() {
    let err = validate("noext", "/scope", present("/scope", "noext"), PhotoTarget::Photo).expect_err("expected validation error");
    assert!(matches!(err, PhotoAccessError::InvalidExtension(_)));
}

#[test]
fn nonexistent_file_rejected() {
    let facts = PhotoPathFacts { canonical_scope: Some("/scope".into()), canonical_file: None, is_regular_file: None };
    let err = validate("ghost.png", "/scope", facts, PhotoTarget::Photo).expect_err("expected validation error");
    assert!(matches!(err, PhotoAccessError::NotFound(_)));
}

#[test]
fn scope_directory_missing_rejected() {
    let facts = PhotoPathFacts { canonical_scope: None, ..present("/scope/does_not_exist", "ok.png") };
    let err = validate("ok.png", "/scope/does_not_exist", facts, PhotoTarget::Photo).expect_err("expected validation error");
    assert!(matches!(err, PhotoAccessError::ScopeNotAccessible(_)));
}

#[test]
fn guard_decides_from_the_facts_in_order() {
    let f = |scope: Option<&str>, file: Option<&str>, regular: Option<bool>| PhotoPathFacts {
        canonical_scope: scope.map(String::from),
        canonical_file: file.map(String::from),
        is_regular_file: regular,
    };
    assert_eq!(
        validate_photo_path("req.png", "/s", f(Some("/s"), Some("/s/a/b.png"), Some(true)), PhotoTarget::Photo),
        Ok("/s/a/b.png".to_string())
    );
    assert_eq!(
        validate_photo_path("req.png", "/s", f(Some("/s"), Some("/s/a/b.png"), Some(true)), PhotoTarget::Folder),
        Ok("/s/a".to_string())
    );
    assert_eq!(
        validate_photo_path("req.png", "/s", f(Some("/s"), Some("/sX/b.png"), Some(true)), PhotoTarget::Photo),
        Err(PhotoAccessError::OutsideScope { file: "/sX/b.png".into(), scope: "/s".into() })
    );
    assert_eq!(
        validate_photo_path("req.png", "/s", f(Some("/s"), Some("/s/d"), Some(false)), PhotoTarget::Photo),
        Err(PhotoAccessError::NotAFile("/s/d".into()))
    );
    assert_eq!(
        validate_photo_path("req.png", "/s", f(Some("/s"), Some("/s/b.png"), None), PhotoTarget::Photo),
        Err(PhotoAccessError::NotFound("/s/b.png".into()))
    );
    assert_eq!(
        validate_photo_path("req.png", "/s", f(None, None, None), PhotoTarget::Photo),
        Err(PhotoAccessError::ScopeNotAccessible("/s".into()))
    );
}

#[test]
fn open_photo_folder_uses_the_configured_directory() {
    let s = Settings { photo_directory: Some("/s".into()), ..Settings::default() };
    let facts = PhotoPathFacts {
        canonical_scope: Some("/s".into()),
        canonical_file: Some("/s/m/p.jpg".into()),
        is_regular_file: Some(true),
    };
    assert_eq!(handle_open_photo_folder("p.jpg", &s, facts.clone()), Ok("/s/m".to_string()));
    assert_eq!(handle_open_photo("p.jpg", &s, facts), Ok("/s/m/p.jpg".to_string()));
}

#[test]
fn error_messages() {
    assert_eq!(OpenPhotoError::ScopeNotConfigured.message(), "photo_directory is not configured in settings");
    assert_eq!(
        OpenPhotoError::Access(PhotoAccessError::NotFound("/x.png".into())).message(),
        "photo access rejected: photo file not found: /x.png"
    );
}

#[test]
fn visit_duration_is_hms_or_ongoing() {
    let v = VisitWithCounts {
        id: 1,
        world_id: None,
        world_name: "W".into(),
        joined_utc: UtcTime { secs: 1000, nanos: 0 },
        left_utc: Some(UtcTime { secs: 1000 + 3725, nanos: 0 }),
        resolution_state: "Resolved".into(),
        photo_count: 2,
        player_count: 3,
    };
    assert_eq!(VisitDto::from_record(v.clone()).duration, "01:02:05");
    let ongoing = VisitWithCounts { left_utc: None, ..v };
    assert_eq!(VisitDto::from_record(ongoing).duration, "ongoing");
}

#[test]
fn video_dto_thumbnail_path_and_empty_self_player() {
    let r = VideoRecord {
        id: 9,
        url: "https://v".into(),
        title: None,
        thumbnail_url: None,
        thumbnail_sha: Some("ff".into()),
        detected_naive_local: noon(),
        detected_utc: UtcTime { secs: 0, nanos: 0 },
        world_visit_id: Some(4),
    };
    assert_eq!(VideoDto::from_record(r.clone(), Some("/t/")).thumbnail_path, Some("/t/ff.webp".to_string()));
    assert_eq!(VideoDto::from_record(r, None).thumbnail_path, None);
    let e = SelfPlayerDto::empty();
    assert!(e.display_name.is_none() && e.authenticated_utc.is_none());
}

fn resolved(scope: &str, canonical_file: &str, is_file: bool) -> PhotoPathFacts {
    PhotoPathFacts {
        canonical_scope: Some(scope.to_string()),
        canonical_file: Some(canonical_file.to_string()),
        is_regular_file: Some(is_file),
    }
}

#[test]
fn valid_png_inside_scope_returns_canonical_path() {
    let got = validate("shot.png", "/tmp/scope", present("/tmp/scope", "shot.png"), PhotoTarget::Photo).expect("valid");
    assert_eq!(got, "/tmp/scope/shot.png");
}

#[test]
fn folder_target_returns_parent_directory() {
    let facts = present("/tmp/scope", "2026-05/shot.jpg");
    let got = validate("2026-05/shot.jpg", "/tmp/scope", facts, PhotoTarget::Folder).expect("valid");
    assert_eq!(got, "/tmp/scope/2026-05");
}

#[test]
fn directory_passed_as_photo_rejected() {
    // The subdirectory resolves, but it is not a regular file.
    let facts = resolved("/tmp/scope", "/tmp/scope/subdir", false);
    let err = validate("subdir", "/tmp/scope", facts, PhotoTarget::Photo).expect_err("expected validation error");
    assert!(matches!(err, PhotoAccessError::NotAFile(_) | PhotoAccessError::InvalidExtension(_)));
}

#[test]
fn path_traversal_via_dotdot_rejected() {
    // `scope/inner/../../outside_dir/leak.png` resolves to `/tmp/outside_dir/leak.png`.
    let facts = resolved("/tmp/scope", "/tmp/outside_dir/leak.png", true);
    let err = validate_photo_path("/tmp/scope/inner/../../outside_dir/leak.png", "/tmp/scope", facts, PhotoTarget::Photo)
        .expect_err("expected validation error");
    assert!(matches!(err, PhotoAccessError::OutsideScope { .. }), "expected OutsideScope, got {err:?}");
}

#[test]
fn similar_prefix_directory_does_not_match_scope() {
    let facts = resolved("/tmp/p/xxx_scope", "/tmp/p/xxx_scope_evil/leak.png", true);
    let err = validate_photo_path("/tmp/p/xxx_scope_evil/leak.png", "/tmp/p/xxx_scope", facts, PhotoTarget::Photo)
        .expect_err("expected validation error");
    assert!(matches!(err, PhotoAccessError::OutsideScope { .. }));
}

#[test]
fn symlink_escaping_scope_rejected() {
    // `scope/trap.png` links to `outside/secret.png`; resolving follows the link.
    let facts = resolved("/tmp/p/scope", "/tmp/p/outside/secret.png", true);
    let err = validate_photo_path("/tmp/p/scope/trap.png", "/tmp/p/scope", facts, PhotoTarget::Photo)
        .expect_err("expected validation error");
    assert!(matches!(err, PhotoAccessError::OutsideScope { .. }));
}

#[test]
fn symlink_within_scope_allowed() {
    let facts = resolved("/tmp/scope", "/tmp/scope/real.png", true);
    let got = validate_photo_path("/tmp/scope/alias.png", "/tmp/scope", facts, PhotoTarget::Photo).expect("valid");
    assert_eq!(got, "/tmp/scope/real.png");
}

fn settings_with_scope(scope: &str) -> Settings {
    Settings { photo_directory: Some(scope.to_string()), ..Settings::default() }
}

#[test]
fn open_photo_returns_canonical_path_when_scope_configured() {
    let s = settings_with_scope("/tmp/d");
    let got = handle_open_photo("/tmp/d/shot.png", &s, present("/tmp/d", "shot.png")).expect("ok");
    assert_eq!(got, "/tmp/d/shot.png");
}

#[test]
fn open_photo_folder_returns_parent() {
    let s = settings_with_scope("/tmp/d");
    let got = handle_open_photo_folder("/tmp/d/2026-05/shot.png", &s, present("/tmp/d", "2026-05/shot.png")).expect("ok");
    assert_eq!(got, "/tmp/d/2026-05");
}

#[test]
fn open_photo_propagates_path_traversal_rejection() {
    let s = settings_with_scope("/tmp/d/scope");
    let facts = resolved("/tmp/d/scope", "/tmp/d/outside/leak.png", true);
    let err = handle_open_photo("/tmp/d/outside/leak.png", &s, facts).expect_err("must fail");
    assert!(matches!(err, OpenPhotoError::Access(PhotoAccessError::OutsideScope { .. })));
}
