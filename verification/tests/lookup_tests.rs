use vrcwatchdog_core::db::lookups::is_active;
use vrcwatchdog_core::time::naive::UtcTime;

/// 2026-05-10T12:00:00Z
fn now_fixed() -> UtcTime {
    UtcTime { secs: 1_778_414_400, nanos: 0 }
}

fn plus_secs(t: UtcTime, d: i64) -> UtcTime {
    UtcTime { secs: t.secs + d, nanos: t.nanos }
}

#[test]
fn is_active_returns_false_for_unknown_key() {
    // No row for "nonexistent": nothing to read.
    let active = is_active(None, now_fixed());
    assert!(!active);
}

#[test]
fn is_active_returns_true_when_expires_at_is_in_future() {
    let active = is_active(Some(plus_secs(now_fixed(), 24 * 3600)), now_fixed());
    assert!(active);
}

#[test]
fn is_active_returns_false_when_expires_at_is_already_past() {
    let active = is_active(Some(plus_secs(now_fixed(), -1)), now_fixed());
    assert!(!active, "TTL 過ぎたら caller に再 fetch を促す");
}

#[test]
fn is_active_is_false_at_the_expiry_instant_and_true_a_nanosecond_before() {
    assert!(!is_active(Some(now_fixed()), now_fixed()));
    let just_before = UtcTime { secs: now_fixed().secs - 1, nanos: 999_999_999 };
    assert!(is_active(Some(now_fixed()), just_before));
}
