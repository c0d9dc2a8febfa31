[package]
name = "ratctl"
version = "0.1.0"
edition = "2021"
publish = false

[dependencies]
anyhow = "1"
clap = { version = "4", features = ["derive"] }
crossterm = "0.28"
dirs = "5"
evdev = "0.13"
nix = { version = "0.29", features = ["poll"] }
ratatui = "0.29"
serde = { version = "1", features = ["derive"] }
toml = "0.8"
