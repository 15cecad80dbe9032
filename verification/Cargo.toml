[package]
name = "myluks"
version = "0.1.0"
edition = "2021"
publish = false

[dependencies]
sha2 = "*"
hex = "*"
secp256k1 = "*"
rust-crypto = "*"

[dev-dependencies]
