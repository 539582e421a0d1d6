//! The contract between the backend and the user interface: events pushed to the
//! front end and the handlers of its commands.

pub mod commands;
pub mod events;
