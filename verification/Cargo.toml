[package]
name = "signus"
version = "0.1.0"
edition = "2021"
publish = false

[dependencies]
bs58 = "=0.5.1"
crypto_box = "=0.9.1"
curve25519-dalek = "=4.1.3"
ed25519-dalek = "=2.2.0"
rand = "=0.8.8"
serde_json = "=1.0.154"
sha2 = "=0.10.9"
