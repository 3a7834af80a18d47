//! Authentication and session-management core for a desktop launcher's
//! backend.
//!
//! The crate validates credentials, hashes and verifies passwords, issues
//! and revokes time-limited session tokens, and governs invite-gated account
//! creation as an atomic multi-table transaction. The relational store is
//! modelled in [`database`] as the authoritative record, with the schema's
//! constraints carried as a verified invariant; the OS keyring is a
//! best-effort cache of the active token, coordinated by
//! [`session_service`]; [`auth`] holds the externally invoked entry points
//! and their failure-translation policy.

pub mod auth;
pub mod auth_service;
pub mod database;
pub mod options;
pub mod session_service;
pub mod textfmt;
pub mod user;
