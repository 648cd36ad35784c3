//! Screen capture back ends.
pub mod scrap;
pub mod session_sources;
