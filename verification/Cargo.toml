[package]
name = "portable_fs"
version = "0.1.0"
edition = "2021"
publish = false

[dependencies]
lru = "0.12"
sha2 = "0.10"
chrono = "0.4"
serde = { version = "1", features = ["derive"] }
thiserror = "1"
log = "0.4"
env_logger = "0.11"
clap = { version = "4", features = ["derive"] }
tokio = { version = "1", features = ["full"] }
tokio-stream = "0.1"
async-walkdir = "2"
futures-lite = "2"
poem = { version = "3", features = ["static-files"] }
poem-openapi = { version = "5", features = ["swagger-ui"] }

[dev-dependencies]
serde_json = "1"
