[package]
name = "ims_core"
version = "0.1.0"
edition = "2021"
publish = false

[dependencies]
anyhow = "1"
axum = "0.7"
chrono = "0.4"
futures-util = "0.3"
libc = "0.2"
quick-xml = "0.37"
ring = "0.17"
serde = { version = "1", features = ["derive"] }
serde_json = "1"
socket2 = "0.5"
tokio = { version = "1", features = ["full"] }
tracing = "0.1"
url = "2"
zbus = "4"
