[package]
name = "obographs"
version = "0.1.0"
edition = "2021"
publish = false

[dependencies]
fastobo = "*"
serde = { version = "*", features = ["derive"] }
serde_json = "*"
serde_yaml = "*"
thiserror = "*"
