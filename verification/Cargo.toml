[package]
name = "haiku"
version = "0.1.0"
edition = "2021"
publish = false

[dependencies]
clap = { version = "4", features = ["derive"] }
crossterm = "0.28"
dirs = "6"
owo-colors = { version = "4", features = ["supports-colors"] }
ratatui = "0.29"
rustyline = "15"
serde = { version = "1", features = ["derive"] }
serde_json = "1"
thiserror = "2"
toml = "0.8"
