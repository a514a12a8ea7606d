[package]
name = "rome_config"
version = "0.1.0"
edition = "2021"
publish = false

[dependencies]
indexmap = "*"
serde = { version = "*", features = ["derive"] }
serde_json = "*"
