//! Auto-scaling and capacity management

pub mod autoscaler;
