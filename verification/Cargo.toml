[package]
name = "red-browser"
version = "0.1.0"
edition = "2021"
publish = false

[dependencies]
regex = "1"
url = "2"
scraper = "*"
flate2 = "1"
base64 = "0.22"
lru = "*"
serde = { version = "1", features = ["derive"] }
ciborium = "0.2"
clap = { version = "4", features = ["derive"] }
tokio = { version = "1", features = ["full"] }
reqwest = { version = "0.12", default-features = false, features = ["rustls-tls", "gzip", "brotli", "deflate"] }
image = { version = "0.25", default-features = false, features = ["webp", "png", "jpeg", "gif"] }
anyhow = "1"
log = "0.4"
env_logger = "0.11"
