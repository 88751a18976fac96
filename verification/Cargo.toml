[package]
name = "streams"
version = "0.1.0"
edition = "2021"
publish = false

[dependencies]
anyhow = "1"
bao = "0.12"
base64 = "0.13"
ed25519-dalek = "1.0.1"
fnv = "1.0"
parking_lot = "0.12"
sled = "0.34"
