[package]
name = "dloor"
version = "0.1.0"
edition = "2021"
publish = false

[dependencies]
which = "=8.0.6"
directories = "=6.0.0"
time = { version = "=0.3.55", features = ["formatting"] }
serde = { version = "=1.0.229", features = ["derive"] }
serde_json = "=1.0.154"
toml = "=1.1.8"
tokio = { version = "=1.54.1", features = ["full"] }
tokio-util = "=0.7.20"
tempfile = "=3.27.0"
ratatui = "=0.30.2"
crossterm = "=0.29.0"
arboard = "=3.7.0"
clap = { version = "4", features = ["derive"] }
