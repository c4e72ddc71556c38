[package]
name = "rusty_lightning"
version = "0.1.0"
edition = "2021"
publish = false

[dependencies]
bitcoin = "0.21"
bitcoin_hashes = "0.7"
bitcoin-bech32 = "0.9"
lightning = "0.0.10"
libc = "0.2"
