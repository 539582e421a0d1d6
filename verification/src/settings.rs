//! User settings and the outcome of loading them.
//!
//! Loading never writes: a missing or corrupt `settings.json` yields defaults in
//! memory, and a corrupt file is first copied to a timestamped backup.

use vstd::prelude::*;
use crate::time::naive::{compact_utc_text, format_compact_utc, NaiveLocal};

verus! {

/// Persistent settings of the application.
#[derive(Debug, Clone, PartialEq)]
pub struct Settings {
    pub log_directory: Option<String>,
    pub photo_directory: Option<String>,
    pub thumbnail_cache_dir: Option<String>,
    pub locale: String,
    pub autostart_enabled: bool,
    pub theme: String,
    pub notification_enabled: bool,
}

/// Locale used when none is stored.
pub fn default_locale() -> (r: String)
    ensures
        r@ == "ja"@,
{
    String::from_str("ja")
}

/// Theme used when none is stored.
pub fn default_theme() -> (r: String)
    ensures
        r@ == "dark"@,
{
    String::from_str("dark")
}

/// Default of the notification switch.
pub fn default_true() -> (r: bool)
    ensures
        r,
{
    true
}

/// The settings used when no (valid) file exists.
pub open spec fn is_default_settings(s: Settings) -> bool {
    &&& s.log_directory is None
    &&& s.photo_directory is None
    &&& s.thumbnail_cache_dir is None
    &&& s.locale@ == "ja"@
    &&& !s.autostart_enabled
    &&& s.theme@ == "dark"@
    &&& s.notification_enabled
}

impl Default for Settings {
    fn default() -> (r: Self)
        ensures
            is_default_settings(r),
    {
        Settings {
            log_directory: None,
            photo_directory: None,
            thumbnail_cache_dir: None,
            locale: default_locale(),
            autostart_enabled: false,
            theme: default_theme(),
            notification_enabled: default_true(),
        }
    }
}

/// Result of loading `settings.json`.
#[derive(Debug, Clone, PartialEq)]
pub enum LoadOutcome {
    /// The file was read and parsed.
    Loaded(Settings),
    /// No file: defaults (nothing written).
    NotFound(Settings),
    /// The file was corrupt: it was copied to `backup_path` and defaults are used.
    CorruptBackedUp { settings: Settings, backup_path: String, reason: String },
}

/// Failure to load settings.
#[derive(Debug, Clone, PartialEq, Eq)]
pub enum SettingsLoadError {
    /// Reading the file failed for another reason than absence.
    Io(String),
    /// The backup of a corrupt file could not be written.
    BackupFailed(String),
}

/// Failure to save settings.
#[derive(Debug, Clone, PartialEq, Eq)]
pub enum SettingsSaveError {
    /// The writer task is gone.
    WriterClosed,
    /// The atomic write failed.
    Io(String),
}

/// What reading and parsing `settings.json` gave.
#[derive(Debug, Clone, PartialEq)]
pub enum SettingsRead {
    /// The file does not exist.
    Missing,
    /// Reading failed.
    ReadFailed(String),
    /// The file parsed into settings.
    Parsed(Settings),
    /// The file did not parse; the parser's message.
    Corrupt(String),
}

/// What to do after reading `settings.json`.
#[derive(Debug, Clone, PartialEq)]
pub enum LoadStep {
    /// Done with this outcome.
    Finish(LoadOutcome),
    /// Done with this error.
    Fail(SettingsLoadError),
    /// Copy the file's bytes as read to `backup_path`, then report the corrupt file with `reason`.
    WriteBackup { backup_path: String, reason: String },
}

/// Decides the outcome of loading from what reading the file gave; a corrupt file
/// asks for a backup at `backup_path` first. Nothing here writes the settings file.
pub fn plan_load(read: SettingsRead, backup_path: String) -> (r: LoadStep)
    ensures
        match read {
            SettingsRead::Missing => r matches LoadStep::Finish(LoadOutcome::NotFound(s))
                && is_default_settings(s),
            SettingsRead::ReadFailed(m) => r == LoadStep::Fail(SettingsLoadError::Io(m)),
            SettingsRead::Parsed(s) => r == LoadStep::Finish(LoadOutcome::Loaded(s)),
            SettingsRead::Corrupt(m) => r == LoadStep::WriteBackup { backup_path, reason: m },
        },
{
    match read {
        SettingsRead::Missing => LoadStep::Finish(LoadOutcome::NotFound(Settings::default())),
        SettingsRead::ReadFailed(m) => LoadStep::Fail(SettingsLoadError::Io(m)),
        SettingsRead::Parsed(s) => LoadStep::Finish(LoadOutcome::Loaded(s)),
        SettingsRead::Corrupt(m) => LoadStep::WriteBackup { backup_path, reason: m },
    }
}

/// Outcome once the backup of a corrupt file was attempted: defaults with the backup
/// path, or `BackupFailed`.
pub fn finish_corrupt(backup_written: Result<(), String>, backup_path: String, reason: String) -> (r:
    Result<LoadOutcome, SettingsLoadError>)
    ensures
        match backup_written {
            Ok(()) => r matches Ok(LoadOutcome::CorruptBackedUp { settings, backup_path: b, reason: m })
                && is_default_settings(settings) && b == backup_path && m == reason,
            Err(e) => r == Err::<LoadOutcome, SettingsLoadError>(SettingsLoadError::BackupFailed(e)),
        },
{
    match backup_written {
        Ok(()) => Ok(LoadOutcome::CorruptBackedUp { settings: Settings::default(), backup_path, reason }),
        Err(e) => Err(SettingsLoadError::BackupFailed(e)),
    }
}

/// `{stem}.corrupt-{yyyyMMddTHHmmssZ}.{ext}.bak`
pub open spec fn backup_name_text(stem: Seq<char>, ext: Seq<char>, now: NaiveLocal) -> Seq<char> {
    stem + ".corrupt-"@ + compact_utc_text(now) + seq!['.'] + ext + ".bak"@
}

/// File name of the backup of a corrupt settings file, from the settings file's stem and
/// extension and the current UTC time.
pub fn corrupt_backup_name(stem: &str, ext: &str, now_utc: &NaiveLocal) -> (r: String)
    requires
        now_utc.valid(),
    ensures
        r@ == backup_name_text(stem@, ext@, *now_utc),
{
    let mut s = String::from_str(stem);
    s.append(".corrupt-");
    let ts = format_compact_utc(now_utc);
    s.append(ts.as_str());
    s.push('.');
    s.append(ext);
    s.append(".bak");
    s
}

/// `persist` may succeed when retried: the OS error is ACCESS_DENIED (5) or
/// SHARING_VIOLATION (32).
pub fn is_retryable_persist_error(raw_os_error: Option<i32>) -> (r: bool)
    ensures
        r == (raw_os_error == Some(5i32) || raw_os_error == Some(32i32)),
{
    match raw_os_error {
        Some(5) | Some(32) => true,
        _ => false,
    }
}

/// Attempts of an atomic save before giving up.
pub const MAX_PERSIST_ATTEMPTS: u32 = 20;

/// After the `attempt`-th failed persist (counting from 1) with `raw_os_error`,
/// whether to wait and try again.
pub fn should_retry_persist(attempt: u32, raw_os_error: Option<i32>) -> (r: bool)
    ensures
        r == (attempt < MAX_PERSIST_ATTEMPTS && (raw_os_error == Some(5i32) || raw_os_error
            == Some(32i32))),
{
    attempt < MAX_PERSIST_ATTEMPTS && is_retryable_persist_error(raw_os_error)
}

/// The settings writer: one task serialises every save.
#[derive(Debug, Clone, Copy, PartialEq, Eq)]
pub struct SettingsWriter;

} // verus!
