//! Core logic of VRCWatchDog: VRChat log parsing, ingest bookkeeping,
//! visit/photo matching and time-zone resolution, with verified contracts.

pub mod path;
pub mod text;
pub mod time;
pub mod log_parser;
pub mod log_watcher;
pub mod health;
pub mod ipc;
pub mod process_monitor;
pub mod settings;
pub mod paths;
pub mod photo_scanner;
pub mod db;
pub mod projector;
pub mod photo;
pub mod thumb_writer;
