[package]
name = "bluemetal"
version = "0.1.0"
edition = "2021"
publish = false

[dependencies]
cc = "1"
clap = { version = "4", features = ["derive"] }
ratatui = "0.28"
serde = { version = "1", features = ["derive"] }
toml = "0.8"
