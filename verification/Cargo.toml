[package]
name = "eri_registry"
version = "0.1.0"
edition = "2021"
publish = false

[dependencies]
alloy-primitives = { version = "*", features = ["k256"] }
alloy-sol-types = "*"
stylus-sdk = "*"

[dev-dependencies]
k256 = "*"
