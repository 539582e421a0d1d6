//! Screenshots: reading their names, matching them to world visits and
//! deciding what to record for each file.

pub mod filename;
pub mod visit_matcher;
pub mod ingest;
pub mod actor;
