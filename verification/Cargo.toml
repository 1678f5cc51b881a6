[package]
name = "ngsite"
version = "0.1.0"
edition = "2021"
publish = false

[dependencies]
anyhow = "1"
async-compression = { version = "*", features = ["tokio", "gzip"] }
dialoguer = { version = "*", features = ["fuzzy-select"] }
directories = "*"
env_logger = "0.10"
lazy_static = "1"
log = "0.4"
minus = { version = "5", features = ["static_output"] }
serde = { version = "1", features = ["derive"] }
serde_json = "1"
strum = { version = "*", features = ["derive"] }
tokio = { version = "1", features = ["full"] }
toml = "*"
users = "0.11"
walkdir = "2"
which = "*"
