[package]
name = "cahlter"
version = "0.1.0"
edition = "2021"
publish = false

[dependencies]
anyhow = "1"
askama = "0.12"
async-std = { version = "1", features = ["attributes"] }
clap = "4"
colored = "2"
env_logger = "0.11"
human-panic = "1"
is-terminal = "0.4"
log = { version = "0.4", features = ["kv"] }
pulldown-cmark = { version = "0.9", default-features = false }
serde = { version = "1", features = ["derive"] }
serde_yaml = "0.9"
tide = "0.16"
