//! Handlers of the front end's commands, and the shapes they return.
//!
//! The handlers return what the shell is to open or what the front end shows;
//! opening, emitting and serialising are the shell's.

use vstd::prelude::*;
use crate::db::rows::{
    NotificationRecord, PhotoRecord, PlayerSessionView, SelfPlayerRecord, VideoRecord,
    VisitWithCounts,
};
use crate::ipc::events::{OneDriveWarning, SettingsCorruptWarning};
use crate::log_parser::event::opt_view;
use crate::paths::{join, path_join};
use crate::photo::access::{
    access_error_text, access_spec, access_view, validate_photo_path, AccessErrorView,
    PhotoAccessError, PhotoPathFacts, PhotoTarget,
};
use crate::settings::Settings;
use crate::time::duration::{format_duration_hms, hms_text, seconds_between, seconds_between_spec};
use crate::time::naive::{format_naive, naive_text, UtcTime};

verus! {

/// `<dir>/<sha>.webp` when both the directory and the hash are known.
pub open spec fn thumb_file(sha: Option<String>, dir: Option<&str>) -> Option<Seq<char>> {
    match (sha, dir) {
        (Some(s), Some(d)) => Some(path_join(d@, s@ + ".webp"@)),
        _ => None,
    }
}

fn thumb_file_path(sha: &Option<String>, dir: Option<&str>) -> (r: Option<String>)
    ensures
        opt_view(r) == thumb_file(*sha, dir),
{
    match (sha, dir) {
        (Some(s), Some(d)) => {
            let mut name = s.clone();
            name.append(".webp");
            Some(join(d, name.as_str()))
        },
        _ => None,
    }
}

/// A photo as the front end shows it.
#[derive(Debug, Clone, PartialEq, Eq)]
pub struct PhotoRecordDto {
    pub id: i64,
    pub file_path: String,
    pub file_name: String,
    /// `%Y-%m-%d %H:%M:%S`
    pub taken_naive_local: String,
    pub taken_utc: UtcTime,
    pub thumb_sha: Option<String>,
    /// `<thumb_dir>/<thumb_sha>.webp`, when both are known.
    pub thumb_path: Option<String>,
    pub world_visit_id: Option<i64>,
    pub world_name: Option<String>,
}

impl PhotoRecordDto {
    /// Converts a stored photo; with the thumbnail directory, the thumbnail's path is set.
    pub fn from_record(r: PhotoRecord, thumb_dir: Option<&str>) -> (d: Self)
        requires
            r.taken_naive_local.valid(),
        ensures
            d.id == r.id,
            d.file_path == r.file_path,
            d.file_name == r.file_name,
            d.taken_naive_local@ == naive_text(r.taken_naive_local),
            d.taken_utc == r.taken_utc,
            d.thumb_sha == r.thumb_sha,
            opt_view(d.thumb_path) == thumb_file(r.thumb_sha, thumb_dir),
            d.world_visit_id == r.world_visit_id,
            d.world_name == r.world_name,
    {
        let thumb_path = thumb_file_path(&r.thumb_sha, thumb_dir);
        PhotoRecordDto {
            id: r.id,
            file_path: r.file_path,
            file_name: r.file_name,
            taken_naive_local: format_naive(&r.taken_naive_local),
            taken_utc: r.taken_utc,
            thumb_sha: r.thumb_sha,
            thumb_path,
            world_visit_id: r.world_visit_id,
            world_name: r.world_name,
        }
    }
}

/// A video as the front end shows it.
#[derive(Debug, Clone, PartialEq, Eq)]
pub struct VideoDto {
    pub id: i64,
    pub url: String,
    pub title: Option<String>,
    pub thumbnail_url: Option<String>,
    pub thumbnail_sha: Option<String>,
    /// `<thumb_dir>/<thumbnail_sha>.webp`, when both are known.
    pub thumbnail_path: Option<String>,
    pub detected_naive_local: String,
    pub detected_utc: UtcTime,
    pub world_visit_id: Option<i64>,
}

impl VideoDto {
    /// Converts a stored video; with the thumbnail directory, the thumbnail's path is set.
    pub fn from_record(r: VideoRecord, thumb_dir: Option<&str>) -> (d: Self)
        requires
            r.detected_naive_local.valid(),
        ensures
            d.id == r.id,
            d.url == r.url,
            d.title == r.title,
            d.thumbnail_url == r.thumbnail_url,
            d.thumbnail_sha == r.thumbnail_sha,
            opt_view(d.thumbnail_path) == thumb_file(r.thumbnail_sha, thumb_dir),
            d.detected_naive_local@ == naive_text(r.detected_naive_local),
            d.detected_utc == r.detected_utc,
            d.world_visit_id == r.world_visit_id,
    {
        let thumbnail_path = thumb_file_path(&r.thumbnail_sha, thumb_dir);
        VideoDto {
            id: r.id,
            url: r.url,
            title: r.title,
            thumbnail_url: r.thumbnail_url,
            thumbnail_sha: r.thumbnail_sha,
            thumbnail_path,
            detected_naive_local: format_naive(&r.detected_naive_local),
            detected_utc: r.detected_utc,
            world_visit_id: r.world_visit_id,
        }
    }
}

/// A notification as the front end shows it.
#[derive(Debug, Clone, PartialEq, Eq)]
pub struct NotificationDto {
    pub id: i64,
    pub received_naive_local: String,
    pub received_utc: UtcTime,
    pub sender_name: String,
    pub notification_type: String,
    pub world_visit_id: Option<i64>,
}

impl NotificationDto {
    pub fn from_record(r: NotificationRecord) -> (d: Self)
        requires
            r.received_naive_local.valid(),
        ensures
            d.id == r.id,
            d.received_naive_local@ == naive_text(r.received_naive_local),
            d.received_utc == r.received_utc,
            d.sender_name == r.sender_name,
            d.notification_type == r.notification_type,
            d.world_visit_id == r.world_visit_id,
    {
        NotificationDto {
            id: r.id,
            received_naive_local: format_naive(&r.received_naive_local),
            received_utc: r.received_utc,
            sender_name: r.sender_name,
            notification_type: r.notification_type,
            world_visit_id: r.world_visit_id,
        }
    }
}

/// A visit as the activity history shows it.
#[derive(Debug, Clone, PartialEq, Eq)]
pub struct VisitDto {
    pub id: i64,
    pub world_id: Option<String>,
    pub world_name: String,
    pub joined_utc: UtcTime,
    pub left_utc: Option<UtcTime>,
    pub resolution_state: String,
    pub photo_count: i64,
    pub player_count: i64,
    /// `HH:MM:SS`, or `ongoing` while the visit has not been left.
    pub duration: String,
}

/// An instant within the range the stored times use.
pub open spec fn stored_instant(t: UtcTime) -> bool {
    t.nanos < 2_000_000_000 && -100_000_000_000_000 <= t.secs <= 100_000_000_000_000
}

impl VisitDto {
    pub fn from_record(v: VisitWithCounts) -> (d: Self)
        requires
            stored_instant(v.joined_utc),
            v.left_utc matches Some(l) ==> stored_instant(l),
        ensures
            d.id == v.id,
            d.world_id == v.world_id,
            d.world_name == v.world_name,
            d.joined_utc == v.joined_utc,
            d.left_utc == v.left_utc,
            d.resolution_state == v.resolution_state,
            d.photo_count == v.photo_count,
            d.player_count == v.player_count,
            d.duration@ == match v.left_utc {
                Some(l) => hms_text(seconds_between_spec(l, v.joined_utc)),
                None => "ongoing"@,
            },
    {
        let duration = match v.left_utc {
            Some(left) => format_duration_hms(seconds_between(left, v.joined_utc)),
            None => String::from_str("ongoing"),
        };
        VisitDto {
            id: v.id,
            world_id: v.world_id,
            world_name: v.world_name,
            joined_utc: v.joined_utc,
            left_utc: v.left_utc,
            resolution_state: v.resolution_state,
            photo_count: v.photo_count,
            player_count: v.player_count,
            duration,
        }
    }
}

/// The local player, if one ever logged in.
#[derive(Debug, Clone, PartialEq, Eq)]
pub struct SelfPlayerDto {
    pub display_name: Option<String>,
    pub authenticated_utc: Option<UtcTime>,
}

impl SelfPlayerDto {
    /// No login seen yet.
    pub fn empty() -> (d: Self)
        ensures
            d.display_name is None,
            d.authenticated_utc is None,
    {
        SelfPlayerDto { display_name: None, authenticated_utc: None }
    }

    pub fn from_record(r: SelfPlayerRecord) -> (d: Self)
        ensures
            d.display_name == Some(r.display_name),
            d.authenticated_utc == Some(r.authenticated_utc),
    {
        SelfPlayerDto { display_name: Some(r.display_name), authenticated_utc: Some(r.authenticated_utc) }
    }
}

/// A player's stay as the visit details show it.
#[derive(Debug, Clone, PartialEq, Eq)]
pub struct PlayerSessionDto {
    pub id: i64,
    pub display_name: String,
    pub user_id: Option<String>,
    pub joined_utc: UtcTime,
    pub left_utc: Option<UtcTime>,
}

impl PlayerSessionDto {
    pub fn from_record(v: PlayerSessionView) -> (d: Self)
        ensures
            d.id == v.id,
            d.display_name == v.display_name,
            d.user_id == v.user_id,
            d.joined_utc == v.joined_utc,
            d.left_utc == v.left_utc,
    {
        PlayerSessionDto {
            id: v.id,
            display_name: v.display_name,
            user_id: v.user_id,
            joined_utc: v.joined_utc,
            left_utc: v.left_utc,
        }
    }
}

/// Warnings found at start-up, fetched by the front end once it listens.
#[derive(Debug, Clone, PartialEq, Eq)]
pub struct InitialWarnings {
    pub settings_corrupt: Option<SettingsCorruptWarning>,
    pub db_sync_risk: Option<OneDriveWarning>,
}

/// Why a photo (or its folder) is not opened.
#[derive(Debug, Clone, PartialEq, Eq)]
pub enum OpenPhotoError {
    /// No photo directory is set.
    ScopeNotConfigured,
    /// The access guard refused the path.
    Access(PhotoAccessError),
}

pub enum OpenPhotoErrorView {
    ScopeNotConfigured,
    Access(AccessErrorView),
}

impl View for OpenPhotoError {
    type V = OpenPhotoErrorView;

    open spec fn view(&self) -> OpenPhotoErrorView {
        match self {
            OpenPhotoError::ScopeNotConfigured => OpenPhotoErrorView::ScopeNotConfigured,
            OpenPhotoError::Access(e) => OpenPhotoErrorView::Access(e@),
        }
    }
}

impl OpenPhotoError {
    /// The message shown for the error.
    pub fn message(&self) -> (r: String)
        ensures
            r@ == match self@ {
                OpenPhotoErrorView::ScopeNotConfigured => "photo_directory is not configured in settings"@,
                OpenPhotoErrorView::Access(e) => "photo access rejected: "@ + access_error_text(e),
            },
    {
        match self {
            OpenPhotoError::ScopeNotConfigured => String::from_str("photo_directory is not configured in settings"),
            OpenPhotoError::Access(e) => {
                let mut m = String::from_str("photo access rejected: ");
                let inner = e.message();
                m.append(inner.as_str());
                m
            },
        }
    }
}

/// The path to open for `file_path` as `target`, under the settings' photo directory.
pub open spec fn open_spec(
    file_path: Seq<char>,
    settings: Settings,
    facts: PhotoPathFacts,
    target: PhotoTarget,
) -> Result<Seq<char>, OpenPhotoErrorView> {
    match settings.photo_directory {
        None => Err(OpenPhotoErrorView::ScopeNotConfigured),
        Some(dir) => match access_spec(file_path, dir@, facts, target) {
            Ok(p) => Ok(p),
            Err(e) => Err(OpenPhotoErrorView::Access(e)),
        },
    }
}

pub open spec fn open_view(r: Result<String, OpenPhotoError>) -> Result<Seq<char>, OpenPhotoErrorView> {
    match r {
        Ok(p) => Ok(p@),
        Err(e) => Err(e@),
    }
}

fn open_target(file_path: &str, settings: &Settings, facts: PhotoPathFacts, target: PhotoTarget) -> (r: Result<
    String,
    OpenPhotoError,
>)
    ensures
        open_view(r) == open_spec(file_path@, *settings, facts, target),
{
    let scope = match &settings.photo_directory {
        Some(d) => d,
        None => return Err(OpenPhotoError::ScopeNotConfigured),
    };
    match validate_photo_path(file_path, scope.as_str(), facts, target) {
        Ok(p) => Ok(p),
        Err(e) => Err(OpenPhotoError::Access(e)),
    }
}

/// `open_photo`: the photo to hand to the picture viewer. `facts` are what the file
/// system said about `file_path` and the configured photo directory.
pub fn handle_open_photo(file_path: &str, settings: &Settings, facts: PhotoPathFacts) -> (r: Result<
    String,
    OpenPhotoError,
>)
    ensures
        open_view(r) == open_spec(file_path@, *settings, facts, PhotoTarget::Photo),
{
    open_target(file_path, settings, facts, PhotoTarget::Photo)
}

/// `open_photo_folder`: the folder holding the photo, to hand to the file manager.
pub fn handle_open_photo_folder(file_path: &str, settings: &Settings, facts: PhotoPathFacts) -> (r:
    Result<String, OpenPhotoError>)
    ensures
        open_view(r) == open_spec(file_path@, *settings, facts, PhotoTarget::Folder),
{
    open_target(file_path, settings, facts, PhotoTarget::Folder)
}

fn clone_opt(o: &Option<String>) -> (r: Option<String>)
    ensures
        r == *o,
{
    match o {
        Some(s) => Some(s.clone()),
        None => None,
    }
}

/// `get_settings`: a copy of the current settings.
pub fn handle_get_settings(snapshot: &Settings) -> (r: Settings)
    ensures
        r == *snapshot,
{
    Settings {
        log_directory: clone_opt(&snapshot.log_directory),
        photo_directory: clone_opt(&snapshot.photo_directory),
        thumbnail_cache_dir: clone_opt(&snapshot.thumbnail_cache_dir),
        locale: snapshot.locale.clone(),
        autostart_enabled: snapshot.autostart_enabled,
        theme: snapshot.theme.clone(),
        notification_enabled: snapshot.notification_enabled,
    }
}

} // verus!
