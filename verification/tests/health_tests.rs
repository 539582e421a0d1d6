use vrcwatchdog_core::health::{classify, projector_lag_from};
use vrcwatchdog_core::ipc::events::HealthLevel;

#[test]
fn classify_returns_healthy_when_all_metrics_are_below_soft_thresholds() {
    assert_eq!(classify(0, 0, 0, 0), HealthLevel::Healthy);
}

#[test]
fn classify_returns_warning_when_backlog_reaches_soft_threshold() {
    assert_eq!(classify(30_000, 0, 0, 0), HealthLevel::Warning);
}

#[test]
fn classify_returns_healthy_when_backlog_just_below_soft_threshold() {
    assert_eq!(classify(29_999, 0, 0, 0), HealthLevel::Healthy);
}

#[test]
fn classify_returns_degraded_when_backlog_reaches_hard_threshold() {
    assert_eq!(classify(50_000, 0, 0, 0), HealthLevel::Degraded);
}

#[test]
fn classify_returns_warning_when_lag_reaches_soft_threshold() {
    assert_eq!(classify(0, 60, 0, 0), HealthLevel::Warning);
}

#[test]
fn classify_returns_degraded_when_lag_reaches_hard_threshold() {
    assert_eq!(classify(0, 300, 0, 0), HealthLevel::Degraded);
}

#[test]
fn classify_returns_warning_when_db_size_reaches_soft_threshold() {
    let one_gib: u64 = 1024 * 1024 * 1024;
    assert_eq!(classify(0, 0, one_gib, 0), HealthLevel::Warning);
}

#[test]
fn classify_returns_degraded_when_db_size_reaches_hard_threshold() {
    let five_gib: u64 = 5 * 1024 * 1024 * 1024;
    assert_eq!(classify(0, 0, five_gib, 0), HealthLevel::Degraded);
}

#[test]
fn classify_treats_free_disk_zero_as_unknown_and_does_not_warn() {
    assert_eq!(classify(0, 0, 0, 0), HealthLevel::Healthy);
}

#[test]
fn classify_returns_warning_when_free_disk_drops_to_soft_threshold() {
    let five_gib: u64 = 5 * 1024 * 1024 * 1024;
    assert_eq!(classify(0, 0, 0, five_gib), HealthLevel::Warning);
}

#[test]
fn classify_returns_degraded_when_free_disk_drops_to_hard_threshold() {
    let one_gib: u64 = 1024 * 1024 * 1024;
    assert_eq!(classify(0, 0, 0, one_gib), HealthLevel::Degraded);
}

#[test]
fn classify_returns_healthy_when_free_disk_is_just_above_soft_threshold() {
    let above_soft: u64 = 5 * 1024 * 1024 * 1024 + 1;
    assert_eq!(classify(0, 0, 0, above_soft), HealthLevel::Healthy);
}

#[test]
fn classify_picks_degraded_when_any_axis_is_hard_even_if_others_are_healthy() {
    assert_eq!(classify(50_000, 0, 0, 0), HealthLevel::Degraded);
}

#[test]
fn worse_metrics_never_give_a_milder_level() {
    let rank = |l: HealthLevel| match l {
        HealthLevel::Healthy => 0,
        HealthLevel::Warning => 1,
        HealthLevel::Degraded => 2,
    };
    assert!(rank(classify(40_000, 10, 0, 0)) <= rank(classify(40_000, 400, 0, 0)));
    assert!(rank(classify(0, 0, 0, 6_000_000_000)) <= rank(classify(0, 0, 0, 2_000_000_000)));
}

#[test]
fn projector_lag_is_zero_without_pending_events() {
    assert_eq!(projector_lag_from(None, 1000), 0);
    assert_eq!(projector_lag_from(Some(700), 1030), 330);
}
