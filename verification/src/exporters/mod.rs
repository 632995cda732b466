//! Metric exporters

pub mod dashboard;
pub mod html;
pub mod prometheus;
