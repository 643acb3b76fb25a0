[package]
name = "snarkos_node"
version = "0.1.0"
edition = "2021"
publish = false

[dependencies]
anyhow = "=1.0.104"
axum = { version = "=0.8.9", features = ["macros"] }
axum-extra = { version = "=0.10.3", features = ["erased-json"] }
bytes = "=1.12.1"
clap = { version = "=4.6.7", features = ["derive"] }
colored = "=3.1.1"
indexmap = "=2.14.2"
lru = "=0.18.5"
parking_lot = "=0.12.5"
rayon = "=1.12.0"
reqwest = { version = "=0.13.5", default-features = false, features = ["json"] }
serde = { version = "=1.0.229", features = ["derive"] }
serde_json = "=1.0.154"
smol_str = "=0.2.2"
snarkvm = { version = "=4.11.0", default-features = false, features = ["console", "ledger", "synthesizer", "utilities"] }
socket2 = { version = "=0.6.5", features = ["all"] }
tokio = { version = "=1.54.1", features = ["full"] }
tokio-util = { version = "=0.7.20", features = ["codec"] }
tower-http = { version = "=0.6.11", features = ["cors", "trace"] }
tracing = "=0.1.44"
ureq = { version = "=3.5.1", default-features = false }
