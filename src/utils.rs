//! Helpers around the session.
pub mod update;
