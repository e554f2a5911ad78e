[package]
name = "stellar_wrap"
version = "0.1.0"
edition = "2021"
publish = false

[dependencies]
soroban-sdk = "=21.7.7"
ed25519-dalek = "=2.2.0"

[dev-dependencies]
sha2 = "=0.10.9"
