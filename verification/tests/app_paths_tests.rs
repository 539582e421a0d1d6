use vrcwatchdog_core::paths::{default_vrchat_log_dir, read_env_var, AppPaths, PathsError};

#[test]
fn with_bases_builds_expected_subpaths() {
    let p = AppPaths::with_bases("C:/r".into(), "C:/l".into());
    assert_eq!(p.roaming_dir, "C:/r/VRCWatchDog");
    assert_eq!(p.local_dir, "C:/l/VRCWatchDog");
    assert_eq!(p.settings_path, "C:/r/VRCWatchDog/settings.json");
    assert_eq!(p.db_path, "C:/l/VRCWatchDog/vrcwatchdog.db");
    assert_eq!(p.cache_dir, "C:/l/VRCWatchDog/cache");
    assert_eq!(p.thumb_dir, "C:/l/VRCWatchDog/cache/thumbs");
}

#[test]
fn detect_db_sync_risk_returns_none_for_clean_localappdata() {
    let p = AppPaths::with_bases("C:/Users/Foo/AppData/Roaming".into(), "C:/Users/Foo/AppData/Local".into());
    assert_eq!(p.detect_db_sync_risk(), None);
}

#[test]
fn detect_db_sync_risk_flags_onedrive_segment() {
    let p = AppPaths::with_bases("C:/Users/Foo/AppData/Roaming".into(), "C:/Users/Foo/OneDrive/AppData/Local".into());
    let risk = p.detect_db_sync_risk().expect("must flag onedrive");
    assert_eq!(risk.indicator, "OneDrive");
    assert_eq!(risk.db_path, p.db_path);
}

#[test]
fn detect_db_sync_risk_flags_roaming_segment_in_localappdata() {
    let p = AppPaths::with_bases("C:/Users/Foo/AppData/Roaming".into(), "C:/Users/Foo/AppData/Roaming/Local".into());
    let risk = p.detect_db_sync_risk().expect("must flag roaming");
    assert_eq!(risk.indicator, "Roaming");
}

#[test]
fn detect_db_sync_risk_does_not_falsepositive_on_substring() {
    let p = AppPaths::with_bases("C:/Users/Foo/AppData/Roaming".into(), "C:/Users/Foo/OneDriveBackup/Local".into());
    assert_eq!(p.detect_db_sync_risk(), None);
}

#[test]
fn detect_db_sync_risk_handles_backslash_paths() {
    let p = AppPaths::with_bases(r"C:\Users\Foo\AppData\Roaming".into(), r"C:\Users\Foo\OneDrive\AppData\Local".into());
    let risk = p.detect_db_sync_risk().expect("must flag onedrive");
    assert_eq!(risk.indicator, "OneDrive");
}

#[test]
fn detect_db_sync_risk_is_case_insensitive() {
    let p = AppPaths::with_bases("C:/Users/Foo/AppData/Roaming".into(), "C:/Users/Foo/onedrive/AppData/Local".into());
    let risk = p.detect_db_sync_risk().expect("must flag onedrive lowercase");
    assert_eq!(risk.indicator, "OneDrive");
}

#[test]
fn from_env_requires_both_variables_non_empty() {
    assert_eq!(AppPaths::from_env(None, Some("L".into())), Err(PathsError::MissingAppData));
    assert_eq!(AppPaths::from_env(Some("".into()), Some("L".into())), Err(PathsError::MissingAppData));
    assert_eq!(AppPaths::from_env(Some("R".into()), Some("".into())), Err(PathsError::MissingLocalAppData));
    let p = AppPaths::from_env(Some("R".into()), Some("L/".into())).unwrap();
    assert_eq!(p.db_path, "L/VRCWatchDog/vrcwatchdog.db");
}

#[test]
fn onedrive_takes_precedence_and_segments_at_the_ends_count() {
    let p = AppPaths::with_bases("R".into(), "OneDrive/Roaming".into());
    assert_eq!(p.detect_db_sync_risk().unwrap().indicator, "OneDrive");
}

#[test]
fn default_vrchat_log_dir_resolves_to_localllow_vrchat_dir_on_windows() {
    // `%USERPROFILE%` as Windows sets it.
    let resolved = default_vrchat_log_dir(Some("C:\\Users\\tester".to_string()));
    let path = resolved.expect("a user profile gives a log directory");
    let normalized = path.replace('\\', "/");
    assert!(
        normalized.ends_with("/AppData/LocalLow/VRChat/VRChat"),
        "VRChat 標準パスで終わるべき: {}",
        path
    );
    assert_eq!(normalized, "C:/Users/tester/AppData/LocalLow/VRChat/VRChat");
}

#[test]
fn default_vrchat_log_dir_returns_none_when_userprofile_absent() {
    let resolved = default_vrchat_log_dir(None);
    assert!(resolved.is_none());
}

#[test]
fn read_env_var_returns_none_when_env_var_is_unset() {
    let got = read_env_var(None);
    assert!(got.is_none());
}

#[test]
fn read_env_var_returns_none_when_env_var_is_empty_string() {
    let got = read_env_var(Some(String::new()));
    assert!(got.is_none());
}

#[test]
fn read_env_var_returns_pathbuf_when_env_var_has_value() {
    let got = read_env_var(Some("C:/x".to_string()));
    assert_eq!(got, Some("C:/x".to_string()));
}
