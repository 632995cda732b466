//! Core monitoring types and functionality

pub mod text;
pub mod float_text;
pub mod clock;
pub mod labels;
pub mod error;
pub mod metric;
pub mod registry;
pub mod monitor;
pub mod updates;
