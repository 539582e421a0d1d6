//! Calendar values without a time zone, UTC instants, durations and the
//! resolution of local wall-clock times to UTC.

pub mod duration;
pub mod naive;
pub mod resolve;
