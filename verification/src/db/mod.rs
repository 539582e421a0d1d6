//! Values written to and read from the database tables.

pub mod visits;
pub mod rows;
pub mod lookups;
