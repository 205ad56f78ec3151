[package]
name = "tmuy"
version = "0.2.0"
edition = "2021"
publish = false

[dependencies]
anyhow = "1"
base64 = "0.22"
chrono = "0.4"
clap = { version = "4", features = ["derive"] }
crossterm = "0.29"
dirs = "6"
fs2 = "0.4"
nix = { version = "0.30", features = ["process", "signal"] }
portable-pty = "0.9"
rand = "0.9"
serde = { version = "1", features = ["derive"] }
serde_json = "1"
