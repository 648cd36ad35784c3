//! Capture configuration.
pub mod config;
