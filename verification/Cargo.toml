[package]
name = "interlink"
version = "0.1.0"
edition = "2021"
publish = false

[dependencies]
arc-swap = "1"
async-trait = "0.1"
base64 = "0.22"
dashmap = "6"
futures-util = "0.3"
hickory-resolver = { version = "0.25", features = ["tokio", "system-config"] }
libc = "0.2"
metrics = "0.24"
metrics-exporter-prometheus = "0.16"
mimalloc = "0.1"
moka = { version = "0.12", features = ["sync"] }
rcgen = "0.13"
ring = "0.17"
rustls = "0.23"
rustls-pemfile = "2"
serde = { version = "1", features = ["derive"] }
serde_json = "1"
socket2 = { version = "0.5", features = ["all"] }
thiserror = "2"
time = "0.3"
tokio = { version = "1", features = ["full"] }
tokio-rustls = "0.26"
tokio-util = { version = "0.7", features = ["compat"] }
tracing = "0.1"
tracing-subscriber = { version = "0.3", features = ["env-filter"] }
x509-parser = "0.16"
yamux = "0.13"
