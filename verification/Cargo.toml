[package]
name = "solarboat"
version = "0.1.0"
edition = "2021"
publish = false

[dependencies]
anyhow = "*"
clap = { version = "4", features = ["derive"] }
colored = "*"
regex = "*"
serde = { version = "1", features = ["derive"] }
serde_json = "1"
serde_yaml = "*"
