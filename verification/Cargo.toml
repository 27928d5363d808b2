[package]
name = "dir_index"
version = "0.1.0"
edition = "2021"
publish = false

[dependencies]
serde = "1"
bincode = "1"
serde_cbor = "0.11"
serde_json = "1"
ron = "0.6"
toml = "0.5"
serde_yaml = "0.8"
