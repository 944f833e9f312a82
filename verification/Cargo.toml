[package]
name = "ncd_registry"
version = "0.1.0"
edition = "2021"

[dependencies]
near-sdk = { version = "=4.1.1", default-features = false, features = ["legacy"] }
