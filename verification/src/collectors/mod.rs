//! Metric collectors

pub mod integrated_system;
pub mod performance;
pub mod system;
