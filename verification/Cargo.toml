[package]
name = "pvm"
version = "0.1.0"
edition = "2021"
publish = false

[dependencies]
alloy-primitives = "=1.7.3"
polkavm = "=0.37.0"
revm = { version = "=43.0.3", default-features = false, features = ["std"] }
anyhow = "=1.0.104"

[dev-dependencies]
polkavm-common = { version = "=0.37.0", features = ["alloc"] }
