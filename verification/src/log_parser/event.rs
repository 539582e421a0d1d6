//! Semantic events extracted from one log line.

use vstd::prelude::*;
use crate::time::naive::NaiveLocal;

verus! {

/// One semantic event of a VRChat log line. The variant name is the tag stored
/// with the raw event.
#[derive(Debug, Clone, PartialEq, Eq)]
pub enum LogEvent {
    /// `[Behaviour] Entering Room: <name>`
    RoomEntering { world_name: String },
    /// `[Behaviour] Joining wrld_xxx:<instance>`
    RoomJoining { world_id: String, instance_id: String },
    /// `User Authenticated: <name>`
    UserAuthenticated { display_name: String },
    /// `[Behaviour] OnPlayerJoined <name> (usr_xxx)`
    PlayerJoined { display_name: String, user_id: Option<String> },
    /// `[Behaviour] OnPlayerLeft <name> (usr_xxx)`
    PlayerLeft { display_name: String, user_id: Option<String> },
    /// `Received Notification: ... from username:<sender>, ... type:<type>`
    Notification { sender: String, ntype: String },
    /// `[Video Playback] ... Attempting to resolve URL '<url>'`
    VideoUrl { url: String },
    /// A line that matched no pattern.
    UnparsableLine { reason: String },
}

/// The mathematical content of a [`LogEvent`].
pub enum EventView {
    RoomEntering { world_name: Seq<char> },
    RoomJoining { world_id: Seq<char>, instance_id: Seq<char> },
    UserAuthenticated { display_name: Seq<char> },
    PlayerJoined { display_name: Seq<char>, user_id: Option<Seq<char>> },
    PlayerLeft { display_name: Seq<char>, user_id: Option<Seq<char>> },
    Notification { sender: Seq<char>, ntype: Seq<char> },
    VideoUrl { url: Seq<char> },
    UnparsableLine { reason: Seq<char> },
}

pub open spec fn opt_view(o: Option<String>) -> Option<Seq<char>> {
    match o {
        Some(s) => Some(s@),
        None => None,
    }
}

impl View for LogEvent {
    type V = EventView;

    open spec fn view(&self) -> EventView {
        match self {
            LogEvent::RoomEntering { world_name } => EventView::RoomEntering {
                world_name: world_name@,
            },
            LogEvent::RoomJoining { world_id, instance_id } => EventView::RoomJoining {
                world_id: world_id@,
                instance_id: instance_id@,
            },
            LogEvent::UserAuthenticated { display_name } => EventView::UserAuthenticated {
                display_name: display_name@,
            },
            LogEvent::PlayerJoined { display_name, user_id } => EventView::PlayerJoined {
                display_name: display_name@,
                user_id: opt_view(*user_id),
            },
            LogEvent::PlayerLeft { display_name, user_id } => EventView::PlayerLeft {
                display_name: display_name@,
                user_id: opt_view(*user_id),
            },
            LogEvent::Notification { sender, ntype } => EventView::Notification {
                sender: sender@,
                ntype: ntype@,
            },
            LogEvent::VideoUrl { url } => EventView::VideoUrl { url: url@ },
            LogEvent::UnparsableLine { reason } => EventView::UnparsableLine { reason: reason@ },
        }
    }
}

/// The tag of each variant, as stored in `raw_log_events.event_type`.
pub open spec fn event_tag(e: EventView) -> Seq<char> {
    match e {
        EventView::RoomEntering { .. } => "RoomEntering"@,
        EventView::RoomJoining { .. } => "RoomJoining"@,
        EventView::UserAuthenticated { .. } => "UserAuthenticated"@,
        EventView::PlayerJoined { .. } => "PlayerJoined"@,
        EventView::PlayerLeft { .. } => "PlayerLeft"@,
        EventView::Notification { .. } => "Notification"@,
        EventView::VideoUrl { .. } => "VideoUrl"@,
        EventView::UnparsableLine { .. } => "UnparsableLine"@,
    }
}

impl LogEvent {
    /// The variant's tag.
    pub fn type_tag(&self) -> (r: &'static str)
        ensures
            r@ == event_tag(self@),
    {
        match self {
            LogEvent::RoomEntering { .. } => "RoomEntering",
            LogEvent::RoomJoining { .. } => "RoomJoining",
            LogEvent::UserAuthenticated { .. } => "UserAuthenticated",
            LogEvent::PlayerJoined { .. } => "PlayerJoined",
            LogEvent::PlayerLeft { .. } => "PlayerLeft",
            LogEvent::Notification { .. } => "Notification",
            LogEvent::VideoUrl { .. } => "VideoUrl",
            LogEvent::UnparsableLine { .. } => "UnparsableLine",
        }
    }
}

/// A parsed log line: its wall-clock timestamp (no time zone) and its event.
#[derive(Debug, Clone, PartialEq, Eq)]
pub struct ParsedLine {
    pub naive_local: NaiveLocal,
    pub event: LogEvent,
}

} // verus!
