[package]
name = "easycfg"
version = "0.1.0"
edition = "2021"
publish = false

[dependencies]
anyhow = "*"
clap = { version = "*", features = ["derive"] }
crossterm = "*"
dirs = "*"
ratatui = "*"
regex = "*"
serde = { version = "*", features = ["derive"] }
tracing = "*"
tracing-subscriber = "*"
toml = "*"
