[package]
name = "yamlquill"
version = "0.1.0"
edition = "2021"
publish = false

[dependencies]
anyhow = "1"
serde = { version = "1", features = ["derive"] }
serde_yaml = "0.9"
yaml-rust2 = "*"
indexmap = "2"
ratatui = { version = "0.29", default-features = false, features = ["termion"] }
termion = "4"
clap = { version = "4", features = ["derive"] }
dirs = "5"
toml = "0.8"
flate2 = "1"
arboard = { version = "3", default-features = false }
