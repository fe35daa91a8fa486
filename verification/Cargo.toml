[package]
name = "witnet_chain"
version = "0.1.0"
edition = "2021"
publish = false

[dependencies]
actix = { version = "0.7", default-features = false }
log = "0.4"
