[package]
name = "mpclipboard_generic_client"
version = "0.1.0"
edition = "2021"
publish = false

[dependencies]
http = "=1.5.0"
tokio = { version = "=1.53.2", features = ["rt", "sync", "time", "net", "macros"] }
tokio-util = "=0.7.19"
tokio-websockets = { version = "=0.13.3", features = ["client", "ring", "fastrand", "rustls-bring-your-own-connector"] }
tokio-rustls = "=0.26.6"
rustls = "=0.23.45"
rustls-platform-verifier = "=0.7.1"
futures-util = { version = "=0.3.34", features = ["sink"] }
toml = "=1.1.7"
serde = { version = "=1.0.229", features = ["derive"] }
log = "=0.4.34"
pretty_env_logger = "=0.5.0"
anyhow = "=1.0.104"

[dev-dependencies]
serde_json = "=1.0.151"
