use chrono::{Datelike, Timelike};
use vrcwatchdog_core::process_monitor::{
    detect_transition, is_vrchat_process_running, ProcessTransition, VRChatProcessMonitor,
    VRChatProcessMonitorConfig,
};
use vrcwatchdog_core::settings::{
    corrupt_backup_name, finish_corrupt, is_retryable_persist_error, plan_load,
    should_retry_persist, LoadOutcome, LoadStep, Settings, SettingsLoadError, SettingsRead,
};
use vrcwatchdog_core::time::naive::NaiveLocal;

#[test]
fn detect_returns_started_when_previous_false_current_true() {
    assert_eq!(detect_transition(false, true), ProcessTransition::Started);
}

#[test]
fn detect_returns_stopped_when_previous_true_current_false() {
    assert_eq!(detect_transition(true, false), ProcessTransition::Stopped);
}

#[test]
fn detect_returns_no_change_when_both_false() {
    assert_eq!(detect_transition(false, false), ProcessTransition::NoChange);
}

#[test]
fn detect_returns_no_change_when_both_true() {
    assert_eq!(detect_transition(true, true), ProcessTransition::NoChange);
}

#[test]
fn is_vrchat_process_running_returns_false_when_no_process_matches() {
    let names = vec!["init".to_string(), "bash".to_string()];
    assert!(!is_vrchat_process_running(&names, "this_should_definitely_not_be_running_xyz_12345.exe"));
}

#[test]
fn exact_process_name_is_detected() {
    let names = vec!["vrchat.exe".to_string(), "VRChat.exe".to_string()];
    assert!(is_vrchat_process_running(&names, "VRChat.exe"));
    assert!(!is_vrchat_process_running(&names[..1].to_vec(), "VRChat.exe"));
}

#[test]
fn config_default_uses_two_second_interval_and_vrchat_exe() {
    let cfg = VRChatProcessMonitorConfig::default();
    assert_eq!(cfg.poll_interval_ms, 2000);
    assert_eq!(cfg.process_name, "VRChat.exe");
    let m = VRChatProcessMonitor::new(cfg.clone());
    assert_eq!(m.config, cfg);
}

#[test]
fn defaults_are_sensible() {
    let s = Settings::default();
    assert_eq!(s.locale, "ja");
    assert_eq!(s.theme, "dark");
    assert!(!s.autostart_enabled);
    assert!(s.notification_enabled);
}

#[test]
fn corrupt_backup_filename_includes_timestamp() {
    let now = chrono::Utc::now().naive_utc();
    let n = NaiveLocal {
        year: now.year(),
        month: now.month(),
        day: now.day(),
        hour: now.hour(),
        minute: now.minute(),
        second: now.second(),
        nanosecond: now.nanosecond(),
    };
    let name = corrupt_backup_name("settings", "json", &n);
    assert!(name.starts_with("settings.corrupt-"));
    assert!(name.ends_with(".json.bak"));
}

#[test]
fn corrupt_backup_name_is_exact() {
    let n = NaiveLocal { year: 2026, month: 5, day: 10, hour: 1, minute: 2, second: 3, nanosecond: 0 };
    assert_eq!(corrupt_backup_name("settings", "json", &n), "settings.corrupt-20260510T010203Z.json.bak");
}

#[test]
fn loading_decisions_never_write_settings() {
    assert_eq!(plan_load(SettingsRead::Missing, "b".into()), LoadStep::Finish(LoadOutcome::NotFound(Settings::default())));
    assert_eq!(plan_load(SettingsRead::ReadFailed("denied".into()), "b".into()), LoadStep::Fail(SettingsLoadError::Io("denied".into())));
    assert_eq!(
        plan_load(SettingsRead::Corrupt("expected value".into()), "b".into()),
        LoadStep::WriteBackup { backup_path: "b".into(), reason: "expected value".into() }
    );
    assert_eq!(
        finish_corrupt(Ok(()), "b".into(), "r".into()),
        Ok(LoadOutcome::CorruptBackedUp { settings: Settings::default(), backup_path: "b".into(), reason: "r".into() })
    );
    assert_eq!(finish_corrupt(Err("disk".into()), "b".into(), "r".into()), Err(SettingsLoadError::BackupFailed("disk".into())));
}

#[test]
fn persist_is_retried_on_sharing_errors_only_and_at_most_twenty_times() {
    assert!(is_retryable_persist_error(Some(5)));
    assert!(is_retryable_persist_error(Some(32)));
    assert!(!is_retryable_persist_error(Some(2)));
    assert!(!is_retryable_persist_error(None));
    assert!(should_retry_persist(19, Some(32)));
    assert!(!should_retry_persist(20, Some(32)));
}

#[test]
fn missing_file_returns_not_found_without_writing() {
    // A missing file ends the load at once: no step writes anything.
    match plan_load(SettingsRead::Missing, "settings.corrupt.bak".into()) {
        LoadStep::Finish(LoadOutcome::NotFound(s)) => assert_eq!(s, Settings::default()),
        other => panic!("expected NotFound, got {other:?}"),
    }
}

#[test]
fn corrupt_file_is_backed_up_and_default_returned_without_overwriting() {
    // The one write asked for is the copy to the backup path; the settings file is left alone.
    let step = plan_load(SettingsRead::Corrupt("key must be a string".into()), "dir/settings.corrupt-x.json.bak".into());
    let (backup_path, reason) = match step {
        LoadStep::WriteBackup { backup_path, reason } => (backup_path, reason),
        other => panic!("expected WriteBackup, got {other:?}"),
    };
    assert_eq!(backup_path, "dir/settings.corrupt-x.json.bak");
    match finish_corrupt(Ok(()), backup_path, reason) {
        Ok(LoadOutcome::CorruptBackedUp { settings, backup_path, reason }) => {
            assert_eq!(settings, Settings::default());
            assert_eq!(backup_path, "dir/settings.corrupt-x.json.bak");
            assert_eq!(reason, "key must be a string");
        }
        other => panic!("expected CorruptBackedUp, got {other:?}"),
    }
}
