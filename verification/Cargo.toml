[package]
name = "centichain"
version = "0.1.0"
edition = "2021"
publish = false

[dependencies]
sha2 = "0.10"
rust_decimal = "1"
sp-core = { version = "*", default-features = false, features = ["full_crypto", "serde"] }
rand = "0.8"
serde = { version = "1", features = ["derive"] }
serde_json = "1"
serde_with = "3"
libp2p = { version = "0.54", default-features = false, features = ["ed25519", "ecdsa"] }
tokio = { version = "1", features = ["full"] }
futures = "0.3"
chrono = { version = "0.4", default-features = false, features = ["clock", "std"] }
once_cell = "1"
log = "0.4"
