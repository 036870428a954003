[package]
name = "bigecho"
version = "0.1.0"
edition = "2021"
publish = false

[dependencies]
chrono = "=0.4.45"
semver = "=1.0.28"
serde = { version = "=1.0.229", features = ["derive"] }
serde_json = "=1.0.154"
sha2 = "=0.10.9"
url = "=2.5.8"
urlencoding = "=2.1.3"
reqwest = { version = "0.12", default-features = false, features = ["json", "multipart", "rustls-tls", "stream"] }
tokio = { version = "1", features = ["rt-multi-thread", "macros", "time", "fs", "process", "io-util", "sync"] }
rusqlite = { version = "0.32", features = ["bundled"] }
uuid = { version = "1", features = ["v4"] }
base64 = "0.22"
fs2 = "0.4"
keyring = "3"
cpal = "0.15"
opus = "0.3"
ogg = "0.9"
thiserror = "1"
async-trait = "0.1"
