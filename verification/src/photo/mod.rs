//! Guarding the opening of photo files with outside programs.

pub mod access;
