[package]
name = "rpgx"
version = "0.1.0"
edition = "2021"
publish = false

[dependencies]
httparse = "1"
url = "2"
tokio = { version = "1", features = ["rt-multi-thread", "macros", "net", "io-util", "sync"] }
log = "0.4"
env_logger = "0.11"
serde = { version = "1", features = ["derive"] }
toml = "0.8"
