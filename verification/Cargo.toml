[package]
name = "not_news"
version = "0.1.0"
edition = "2021"
publish = false

[dependencies]
indexmap = "2"
base64 = "0.22"
unicode-segmentation = "1"
sha2 = "0.10"
serde = { version = "1", features = ["derive"] }
serde_json = "1"
thiserror = "2"
zeroize = "1"
fs2 = "0.4"
keyring = { version = "3", features = ["sync-secret-service", "crypto-rust", "windows-native"] }
zbus = "*"
command-group = "5"
reqwest = { version = "0.12", default-features = false, features = ["blocking", "multipart", "json", "rustls-tls"] }
tokio = { version = "1", features = ["rt", "time", "macros"] }
cpal = "*"
hound = "3"
ringbuf = "0.4"
