[package]
name = "modpack_downloader"
version = "0.1.0"
edition = "2021"
publish = false

[dependencies]
anyhow = "1"
async_zip = { version = "0.0.9", default-features = false }
bytes = "1"
dotenv = "0.15"
env_logger = { version = "0.9", default-features = false }
futures = "0.3"
indicatif = "0.17"
log = "0.4"
reqwest = { version = "0.11", default-features = false, features = ["stream"] }
sanitize-filename = "0.4"
serde = { version = "1", features = ["derive"] }
serde_json = "1"
tokio = { version = "1", features = ["fs", "io-util", "sync", "time", "rt-multi-thread", "macros"] }
