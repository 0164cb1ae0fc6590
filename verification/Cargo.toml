[package]
name = "kodade_cli"
version = "0.1.0"
edition = "2021"
publish = false

[dependencies]
anyhow = "=1.0.104"
base64 = "=0.22.1"
clap = { version = "=4.6.7", features = ["derive", "string"] }
clap_complete = "=4.6.11"
crossterm = "=0.28.1"
dirs = "=5.0.1"
libc = "=0.2.191"
ratatui = "=0.29.0"
regex = "=1.13.1"
semver = "=1.0.28"
serde = { version = "=1.0.229", features = ["derive"] }
serde_json = { version = "=1.0.154", features = ["float_roundtrip"] }
sha2 = "=0.10.9"
tokio = { version = "=1.54.1", features = ["full"] }
toml = "=0.8.23"
toml_edit = "=0.22.27"
