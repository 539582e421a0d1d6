//! Small row shapes read by the background workers.

use vstd::prelude::*;
use crate::time::naive::{NaiveLocal, UtcTime};

verus! {

/// A photo that has no thumbnail yet.
#[derive(Debug, Clone, PartialEq, Eq)]
pub struct ThumblessPhotoRow {
    pub id: i64,
    pub file_path: String,
}

/// A video row whose title has not been looked up yet.
#[derive(Debug, Clone, PartialEq, Eq)]
pub struct PendingMetadataRow {
    pub id: i64,
    pub url: String,
}

/// A stored photo, with the name of the world it was taken in.
#[derive(Debug, Clone, PartialEq, Eq)]
pub struct PhotoRecord {
    pub id: i64,
    pub file_path: String,
    pub file_name: String,
    pub taken_naive_local: NaiveLocal,
    pub taken_utc: UtcTime,
    pub thumb_sha: Option<String>,
    pub world_visit_id: Option<i64>,
    /// `None` whenever `world_visit_id` is.
    pub world_name: Option<String>,
}

/// A stored video URL and what was looked up about it.
#[derive(Debug, Clone, PartialEq, Eq)]
pub struct VideoRecord {
    pub id: i64,
    pub url: String,
    pub title: Option<String>,
    pub thumbnail_url: Option<String>,
    pub thumbnail_sha: Option<String>,
    pub detected_naive_local: NaiveLocal,
    pub detected_utc: UtcTime,
    pub world_visit_id: Option<i64>,
}

/// A stored notification.
#[derive(Debug, Clone, PartialEq, Eq)]
pub struct NotificationRecord {
    pub id: i64,
    pub received_naive_local: NaiveLocal,
    pub received_utc: UtcTime,
    pub sender_name: String,
    pub notification_type: String,
    pub world_visit_id: Option<i64>,
}

/// A visit with the number of its photos and of the distinct players met.
#[derive(Debug, Clone, PartialEq, Eq)]
pub struct VisitWithCounts {
    pub id: i64,
    pub world_id: Option<String>,
    pub world_name: String,
    pub joined_utc: UtcTime,
    pub left_utc: Option<UtcTime>,
    pub resolution_state: String,
    pub photo_count: i64,
    pub player_count: i64,
}

/// The latest login of the local player.
#[derive(Debug, Clone, PartialEq, Eq)]
pub struct SelfPlayerRecord {
    pub id: i64,
    pub display_name: String,
    pub authenticated_utc: UtcTime,
}

/// A player's stay in a visit.
#[derive(Debug, Clone, PartialEq, Eq)]
pub struct PlayerSessionView {
    pub id: i64,
    pub display_name: String,
    pub user_id: Option<String>,
    pub joined_utc: UtcTime,
    pub left_utc: Option<UtcTime>,
}

} // verus!
