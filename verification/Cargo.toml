[package]
name = "iris_flow"
version = "0.1.0"
edition = "2021"
publish = false

[dependencies]
anyhow = "1"
chrono = "0.4"
cpu-time = "1"
crossbeam = "0.8"
csv = "1"
itertools = "0.13"
lazy_static = "1"
log = "0.4"
nix = { version = "0.29", features = ["process", "signal"] }
pcap = "*"
serde = { version = "1", features = ["derive"] }
serde_json = "1"
tokio = { version = "1", features = ["rt", "time"] }
toml = "0.8"
