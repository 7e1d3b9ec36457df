//! Core rules of a small metadata service: a liveness probe, a user
//! echo that grafts a fresh identifier onto its input, and a table of
//! file records keyed by identifier.

pub mod error;
pub mod health;
pub mod identifier;
pub mod laws;
pub mod record;
pub mod store;
pub mod user;
