[package]
name = "fullnode"
version = "0.1.0"
edition = "2021"
publish = false

[dependencies]
bs58 = "0.5"
sha2 = "0.10"
ring = "0.17"
ed25519-dalek = "2"
jsonrpc-core = "18"
jsonrpc-http-server = "18"
serde = { version = "1", features = ["derive"] }
serde_json = "1"
clap = "2.33"
dirs = "*"
