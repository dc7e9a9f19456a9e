[package]
name = "relayer_lib"
version = "0.1.0"
edition = "2021"
publish = false

[dependencies]
alloy = { version = "*", default-features = false }
sha3 = "*"
futures = "*"
