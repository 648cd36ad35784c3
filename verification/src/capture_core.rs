//! Frame memory and performance estimates.
pub mod buffer_pool;
pub mod performance_analysis;
pub mod ring_buffer;
