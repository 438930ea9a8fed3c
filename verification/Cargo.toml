[package]
name = "thalamic-relay"
version = "0.2.0"
edition = "2021"
publish = false

[dependencies]
corpus-ipc = { version = "=0.2.1", default-features = false }
lazy_static = "=1.5.1"
metrics = "=0.24.6"
metrics-exporter-prometheus = { version = "=0.18.3", default-features = false, features = ["http-listener"] }
nvml-wrapper = "=0.10.0"
serde = { version = "=1.0.229", features = ["derive"] }
serde_json = "=1.0.154"
tokio = { version = "=1.54.1", features = ["full"] }
tracing = "=0.1.44"
tracing-subscriber = "=0.3.23"
