[package]
name = "pagoda_runtime"
version = "0.1.0"
edition = "2021"
publish = false

[dependencies]
anyhow = "1"
arc-swap = "1"
async-nats = "*"
async-stream = "0.3"
async-trait = "0.1"
axum = "0.8"
blake3 = "1"
bytes = "1"
dashmap = "6"
etcd-client = "*"
futures = "0.3"
libc = "0.2"
libloading = "0.8"
local-ip-address = "0.6"
notify = "8"
parking_lot = "0.12"
prometheus = "*"
rand = "0.9"
regex = "1"
serde = { version = "1", features = ["derive"] }
serde_json = "1"
socket2 = "0.5"
tokio = { version = "1", features = ["full"] }
tokio-util = { version = "0.7", features = ["full"] }
tower-http = { version = "0.6", features = ["trace"] }
tracing = "0.1"
uuid = { version = "1", features = ["v4"] }
validator = "*"
