[package]
name = "download_core"
version = "0.1.0"
edition = "2021"
publish = false

[dependencies]
aes-gcm = "0.10"
argon2 = "0.5"
rand = "0.8"
chrono = "0.4"
url = "2"
urlencoding = "2"
uuid = { version = "1", features = ["v4"] }
base64 = "0.22"
regex = "1"
reqwest = { version = "0.12", default-features = false, features = ["rustls-tls", "stream", "json"] }
tokio = { version = "1", features = ["rt-multi-thread", "macros", "fs", "io-util", "process", "sync", "time"] }
futures-util = "0.3"
serde = { version = "1", features = ["derive"] }
serde_json = "1"
rusqlite = { version = "0.31", features = ["bundled"] }
zip = { version = "0.6", default-features = false, features = ["deflate"] }
walkdir = "2"
