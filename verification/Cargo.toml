[package]
name = "liveness"
version = "0.1.0"
edition = "2021"
publish = false

[dependencies]
libc = "0.2"
rand = "0.8"
rsa = "0.9"
tokio = { version = "1", default-features = false, features = ["sync", "time", "rt"] }
users = "0.11"
