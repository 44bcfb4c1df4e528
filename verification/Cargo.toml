[package]
name = "helix"
version = "1.0.0"
edition = "2021"
publish = false

[dependencies]
aes-gcm = "0.10"
anyhow = "1"
blake3 = "1"
chrono = "0.4"
clap = { version = "4", features = ["derive"] }
colored = "2"
env_logger = "0.11"
libc = "0.2"
log = "0.4"
rand = "0.8"
rayon = "1"
rusqlite = "0.31"
serde = { version = "1", features = ["derive"] }
serde_json = "1"
serde_yaml = "0.9"
thiserror = "1"
tokio = { version = "1", features = ["rt-multi-thread", "macros"] }
uuid = { version = "1", features = ["v4"] }
zstd = "0.13"
