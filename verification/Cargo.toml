[package]
name = "govee_exporter"
version = "0.1.0"
edition = "2021"
publish = false

[dependencies]
btleplug = "*"
futures = "*"
prometheus_exporter = "*"
tokio = { version = "*", features = ["full"] }
