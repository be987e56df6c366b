[package]
name = "asenix"
version = "0.1.0"
edition = "2021"
publish = false

[dependencies]
blake3 = "1"
hex = "0.4"
ed25519-dalek = "2"
rand = "0.9"
petgraph = "0.6"
serde = { version = "1", features = ["derive"] }
serde_json = "1"
toml = "0.8"
anyhow = "1"
dirs = "5"
thiserror = "1"
chrono = "0.4"
colored = "2"
