//! Payloads of the events emitted to the front end.

use vstd::prelude::*;
use crate::time::naive::UtcTime;

verus! {

/// Summary of the pipeline's health.
#[derive(Debug, Clone, Copy, PartialEq, Eq)]
pub struct HealthStatus {
    /// Raw events waiting for projection.
    pub backlog_size: u64,
    /// Seconds the projector lags behind the oldest pending event.
    pub projector_lag_sec: i64,
    /// Size of the database file.
    pub db_size_bytes: u64,
    /// Free space of the volume holding the database (0 = not measured).
    pub free_disk_bytes: u64,
    /// Level derived from the metrics.
    pub level: HealthLevel,
}

#[derive(Debug, Clone, Copy, PartialEq, Eq)]
pub enum HealthLevel {
    /// Every metric is in its normal range.
    Healthy,
    /// At least one metric reached its soft threshold.
    Warning,
    /// At least one metric reached its hard threshold; ingest pauses.
    Degraded,
}

/// `settings.json` was corrupt; a backup was written.
#[derive(Debug, Clone, PartialEq, Eq)]
pub struct SettingsCorruptWarning {
    pub backup_path: String,
    pub reason: String,
}

/// The database may live under a synchronised (OneDrive / Roaming) folder.
#[derive(Debug, Clone, PartialEq, Eq)]
pub struct OneDriveWarning {
    pub db_path: String,
    pub detected_indicator: String,
}

/// Unrecoverable corruption was detected; projection stopped.
#[derive(Debug, Clone, PartialEq, Eq)]
pub struct FatalCorruptionEvent {
    pub raw_event_id: i64,
    pub reason: String,
}

/// Summary of one ingest tick.
#[derive(Debug, Clone, PartialEq, Eq)]
pub struct IngestProgress {
    pub processed_log_files: u64,
    pub total_raw_events: u64,
    pub last_event_at_utc: Option<UtcTime>,
}

/// Names of the events (kept in sync with the front end).
pub const HEALTH_STATUS: &'static str = "vrcwatchdog://health-status";

pub const SETTINGS_CORRUPT_WARNING: &'static str = "vrcwatchdog://settings-corrupt";

pub const ONEDRIVE_WARNING: &'static str = "vrcwatchdog://onedrive-warning";

pub const FATAL_CORRUPTION: &'static str = "vrcwatchdog://fatal-corruption";

pub const INGEST_PROGRESS: &'static str = "vrcwatchdog://ingest-progress";

pub const UNKNOWN_LOG_FORMAT: &'static str = "vrcwatchdog://unknown-log-format";

} // verus!
