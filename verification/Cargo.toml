[package]
name = "system_features"
version = "0.1.0"
edition = "2021"
publish = false

[dependencies]
uuid = { version = "1", features = ["v4"] }
rand = "0.8"
libc = "0.2"
chrono = "0.4"
crossbeam = "0.8"
tokio = { version = "1", features = ["full"] }
serde = { version = "1", features = ["derive"] }
serde_json = "1"
bincode = "1"
anyhow = "1"
thiserror = "1"
log = "0.4"
tracing = "0.1"
nix = { version = "0.27", features = ["process", "signal", "sched", "fs"] }
async-trait = "0.1"
lazy_static = "1"
