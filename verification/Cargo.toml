[package]
name = "cuda_over_ip"
version = "0.1.0"
edition = "2021"
publish = false

[dependencies]
heck = "*"
libloading = "*"
serde = { version = "*", features = ["derive"] }
serde_yaml_ng = "*"
