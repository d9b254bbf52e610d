[package]
name = "tinyvm"
version = "0.1.0"
edition = "2021"
publish = false

[dependencies]
keccak-hash = "*"
