[package]
name = "rust_monitoring_system"
version = "0.1.0"
edition = "2021"
publish = false

[dependencies]
chrono = "0.4"
parking_lot = "0.12"
serde = { version = "1", features = ["derive"] }
serde_json = "1"
sysinfo = "0.32"
thiserror = "1"
tokio = { version = "1", features = ["rt", "rt-multi-thread", "time"] }
tracing = "0.1"
