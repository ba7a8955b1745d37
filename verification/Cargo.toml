[package]
name = "xga_commitment"
version = "0.1.0"
edition = "2021"
publish = false

[dependencies]
sha2 = "=0.10.9"
hex = "=0.4.3"
url = "=2.5.8"
tree_hash = "=0.12.1"
blst = "=0.3.17"
alloy-primitives = "=1.7.3"
alloy-sol-types = "=1.7.3"
serde = { version = "=1.0.229", features = ["derive"] }
serde_json = "=1.0.154"
tokio = { version = "=1.54.1", features = ["macros", "rt-multi-thread", "time", "sync", "signal", "net"] }
reqwest = { version = "=0.12.28", default-features = false, features = ["json", "rustls-tls"] }
axum = "=0.7.9"
thiserror = "=1.0.69"
tracing = "=0.1.44"
tracing-subscriber = "=0.3.23"
tokio-retry2 = { version = "=0.9.1", features = ["jitter"] }
