[package]
name = "zpic"
version = "0.1.0"
edition = "2021"
publish = false

[dependencies]
sha2 = "=0.10.9"
hmac = "=0.12.1"
base64 = "=0.22.1"
blake3 = "=1.8.7"
uuid = { version = "=1.29.0", features = ["v4"] }
chrono = "=0.4.45"
infer = "=0.22.0"
image = { version = "=0.25.10", default-features = false, features = ["png", "jpeg", "gif", "webp", "bmp", "tiff"] }
pulldown-cmark = { version = "=0.13.6", default-features = false }
serde = { version = "=1.0.229", features = ["derive"] }
serde_json = "=1.0.154"
toml = "=0.8.23"
clap = { version = "=4.6.7", features = ["derive"] }
tokio = { version = "=1.54.1", features = ["rt-multi-thread", "macros", "fs", "net", "signal", "time", "io-util"] }
reqwest = { version = "=0.12.28", default-features = false, features = ["rustls-tls", "json"] }
directories = "=6.0.0"
walkdir = "=2.5.0"
rusqlite = { version = "=0.41.1", features = ["bundled"] }
if-addrs = "=0.15.0"
multer = "3"
axum = "0.8"
tower-http = { version = "0.6", features = ["cors", "timeout", "trace"] }
futures = "0.3"
bytes = "1"
tracing = "0.1"
tracing-subscriber = { version = "0.3", features = ["env-filter"] }
anyhow = "1"
arboard = "3"
cliclack = "0.3"
