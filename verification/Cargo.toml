[package]
name = "plasma_operator"
version = "0.1.0"
edition = "2021"
publish = false

[dependencies]
fnv = "1.0"
serde = { version = "1.0", features = ["derive"] }
serde_bytes = "0.11"
serde_json = "1.0"
web3 = { version = "*", default-features = false }
