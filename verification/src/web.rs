//! What the administration interface decides.

pub mod api;
