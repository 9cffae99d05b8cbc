[package]
name = "curv"
version = "0.1.0"
edition = "2021"
publish = false

[dependencies]
sha2 = "0.10"
rand = "0.8"
zeroize = "1"
serde = { version = "1", features = ["derive"] }
