[package]
name = "prometheus_labels"
version = "0.1.0"
edition = "2021"
publish = false

[dependencies]
serde = { version = "1", features = ["derive"] }
ryu = "1"
prometheus-client = "0.18"
parking_lot = "0.12"
