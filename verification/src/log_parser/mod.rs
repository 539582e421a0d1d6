//! Parsing of VRChat log lines into semantic events.
//!
//! Lines that carry a timestamp but match no known pattern become
//! [`LogEvent::UnparsableLine`] so that they can still be stored raw.

pub mod event;
pub mod log_filename;
pub mod parse;

pub use event::{EventView, LogEvent, ParsedLine};
pub use parse::parse_line;
pub use log_filename::derive_log_sequence_key;
