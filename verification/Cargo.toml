[package]
name = "sha3-kernel-hasher"
version = "0.2.0"
edition = "2021"
publish = false

[dependencies]
serde = { version = "=1.0.229", features = ["derive"] }

[dev-dependencies]
sha3 = "=0.10.9"
