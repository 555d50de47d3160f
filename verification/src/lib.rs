//! A verified core for a Synology DSM management service.

pub mod auth;
pub mod config;
pub mod dsm;
pub mod json;
pub mod text;
