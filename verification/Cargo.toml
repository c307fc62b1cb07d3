[package]
name = "gitpower"
version = "0.1.0"
edition = "2021"
publish = false

[dependencies]
shellexpand = "*"
serde = { version = "*", features = ["derive"] }
serde_yaml = "*"
clap = "*"
clap_complete = "*"
colored = "*"
