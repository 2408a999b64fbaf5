//! The allowlist's administration: its payloads and its three operations.

pub mod handlers;
pub mod schema;
