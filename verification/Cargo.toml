[package]
name = "rust_volleyball"
version = "0.1.0"
edition = "2021"
publish = false

[dependencies]
rand = "*"
rapier2d = "*"
tokio = { version = "*", default-features = false, features = ["rt", "net", "io-util"] }
log = "*"
env_logger = "*"
