//! Frame processing.
pub mod processing;

pub use processing::{GundamProcessor, ScalingProcessor, Size, StreamConfig, StreamFormat};
