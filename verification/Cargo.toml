[package]
name = "autorebase"
version = "0.1.0"
edition = "2021"
publish = false

[dependencies]
anyhow = "1"
argh = "0.1"
colored = "*"
env_logger = "*"
itertools = "*"
serde = { version = "1", features = ["derive"] }
tempfile = "3"
toml = "*"

[dev-dependencies]
rand = "*"
