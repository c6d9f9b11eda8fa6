//! Core of a tournament/event registration backend: salted-password
//! credentials, session-token lifecycle, registration confirmation, and
//! event roster management, all operating on one relational store.

pub mod credential;
pub mod errors;
pub mod registration;
pub mod roster;
pub mod session;
pub mod store;
pub mod types;
