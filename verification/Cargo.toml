[package]
name = "abi_selectors"
version = "0.1.0"
edition = "2021"
publish = false

[dependencies]
hex = "*"
serde_json = "*"
sha3 = "*"
walkdir = "*"
