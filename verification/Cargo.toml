[package]
name = "switchyard_route"
version = "0.1.0"
edition = "2021"
publish = false

[dependencies]
async-trait = "0.1"
bytes = "1"
clap = { version = "=4.6.7", features = ["derive"] }
dashmap = "=6.2.1"
futures = "0.3"
http = "=1.5.0"
praxis-proxy-core = { version = "=0.7.5", default-features = false }
praxis-proxy-filter = { version = "=0.7.5", default-features = false }
serde = { version = "1", features = ["derive"] }
serde_json = { version = "=1.0.154", features = ["float_roundtrip"] }
serde_yaml = "0.9"
thiserror = "2"
tokio = { version = "1", features = ["net", "time"] }
tracing = "0.1"
