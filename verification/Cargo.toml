[package]
name = "cargo_near"
version = "0.1.0"
edition = "2021"
publish = false

[dependencies]
anyhow = "*"
cargo_metadata = "*"
clap = { version = "3", features = ["derive"] }
colored = "*"
env_logger = "*"
log = "*"
serde = { version = "1", features = ["derive"] }
serde_json = "1"
symbolic-debuginfo = "*"
toml = "0.5"
