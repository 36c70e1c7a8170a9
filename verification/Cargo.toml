[package]
name = "passkeys"
version = "0.1.0"
edition = "2021"
publish = false

[dependencies]
async-trait = "0.1"
ciborium = "0.2"
ed25519-dalek = { version = "2", features = ["rand_core"] }
env_logger = "0.11"
frost-ed25519 = "2"
log = "0.4"
rand = "0.8"
sha2 = "0.10"
