[package]
name = "edi_import"
version = "0.1.0"
edition = "2021"
publish = false

[dependencies]
anyhow = "1"
chrono = "0.4"
encoding = "0.2"
env_logger = "*"
log = "0.4"
rand = "0.8"
rusqlite = "*"
serde = { version = "1", features = ["derive"] }
serde_json = "1"
toml = "*"
ureq = "2"
zip = { version = "0.6", default-features = false, features = ["deflate"] }
