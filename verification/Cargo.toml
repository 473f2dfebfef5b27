[package]
name = "prover_core"
version = "0.1.0"
edition = "2021"
publish = false

[dependencies]
alloy-primitives = { version = "=0.8.26", features = ["serde"] }
anyhow = "=1.0.104"
async-channel = "=2.5.0"
bincode = "=1.3.3"
clap = { version = "=4.6.7", features = ["derive", "env"] }
hex = "=0.4.3"
reqwest = { version = "=0.12.28", default-features = false }
risc0-zkvm = { version = "=1.2.6", default-features = false }
serde = { version = "=1.0.229", features = ["derive"] }
serde_json = "=1.0.154"
serde_yaml = "=0.9.34"
sha2 = "=0.10.9"
tempfile = "=3.27.0"
thiserror = "=1.0.69"
tokio = { version = "=1.54.1", features = ["rt", "macros", "sync", "time", "fs"] }
tracing = "=0.1.44"
url = "=2.5.8"
uuid = "=1.29.0"
