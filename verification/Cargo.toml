[package]
name = "redloop"
version = "0.1.0"
edition = "2021"
publish = false

[dependencies]
chrono = "=0.4.45"
redis = { version = "=1.8.1", features = ["tokio-comp", "cluster-async", "connection-manager", "sentinel"] }
uuid = { version = "=1.29.0", features = ["v7"] }
tokio = { version = "=1.54.1", features = ["full"] }
async-trait = "=0.1.92"
serde = { version = "=1.0.229", features = ["derive"] }
serde_json = "=1.0.154"
clap = { version = "=4.6.7", features = ["derive"] }
thiserror = "=2.0.21"
tracing = "=0.1.44"
tracing-subscriber = "=0.3.23"
