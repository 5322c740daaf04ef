[package]
name = "onvif_discovery"
version = "0.1.0"
edition = "2021"
publish = false

[dependencies]
base64 = "0.22"
chrono = "0.4"
futures = "0.3"
log = "0.4"
quick-xml = "0.31"
rand = "0.8"
serde = { version = "1", features = ["derive"] }
sha1 = "0.10"
thiserror = "1"
tokio = { version = "1", features = ["net", "time", "io-util", "rt", "macros"] }
url = "2"
uuid = { version = "1", features = ["v4"] }
