//! Bookkeeping of the log-file watcher: line framing, file identity and
//! generation changes, and the decisions taken for each file-system event.

pub mod file_identity;
pub mod fs_event;
pub mod hex;
pub mod ingest;
pub mod line_buffer;

pub use file_identity::{
    compute_file_identity_hash, compute_head_line_hash, detect_bump, CurrentFileState,
    FileIdentity, GenerationBumpReason, PrevFileState,
};
pub use fs_event::FsEvent;
pub use line_buffer::LineBuffer;
