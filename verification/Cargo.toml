[package]
name = "lightsurge"
version = "0.1.0"
edition = "2021"
publish = false
rust-version = "1.84"

[dependencies]
soroban-sdk = "=23.5.3"
ed25519-dalek = "=2.2.0"

[dev-dependencies]
sha2 = "=0.10.9"
