//! Screen capture processing library: scaling plans and presets, Gundam
//! tiling, frame buffers, RTSP frame composition, configuration, command
//! line values and error classification.
pub mod capture;
pub mod cli;
pub mod config;
pub mod capture_core;
pub mod cpu;
pub mod deps;
pub mod error;
pub mod gundam;
pub mod presets;
pub mod processing;
pub mod rtsp;
pub mod text;

pub use config::config::CaptureOptions;
pub use error::{CaptureError, CaptureResult, HasRecoverySuggestion, HasSeverity, Recoverable, Retryable};
pub use rtsp::BgraFrame;
pub mod recorder;
