[package]
name = "phi-core"
version = "0.7.0"
edition = "2021"
publish = false

[dependencies]
serde = { version = "=1.0.229", features = ["derive"] }
serde_json = "=1.0.154"
chrono = { version = "=0.4.45", features = ["serde"] }
tokio = { version = "=1.54.1", features = ["full"] }
tokio-util = "=0.7.20"
async-trait = "=0.1.92"
futures = "=0.3.34"
reqwest = { version = "=0.12.28", default-features = false, features = ["json", "stream"] }
reqwest-eventsource = "=0.6.0"
tracing = "=0.1.44"
rand = "=0.8.8"
fs2 = "=0.4.3"
thiserror = "=1.0.69"

[dev-dependencies]
serde_yaml = "0.9"
