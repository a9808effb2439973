[package]
name = "wormhole_words"
version = "0.1.0"
edition = "2021"
publish = false

[dependencies]
fuzzt = "0.3"
rand = "0.8"
serde_json = "1.0"
