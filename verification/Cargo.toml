[package]
name = "proximity"
version = "0.1.0"
edition = "2021"
publish = false

[dependencies]
rand = { version = "0.8", features = ["small_rng"] }
tokio = { version = "1", features = ["full"] }
async-trait = "0.1"
clap = "2"
env_logger = "0.8"
log = "0.4"
serde = { version = "1", features = ["derive"] }
serde_yaml = "0.8"
humantime-serde = "1"
trust-dns-resolver = "0.20"
