[package]
name = "createos"
version = "0.1.0"
edition = "2021"
publish = false

[dependencies]
base64 = "0.22"
bytes = "1"
chrono = { version = "0.4", default-features = false, features = ["std", "clock", "serde"] }
futures-util = { version = "0.3", default-features = false, features = ["std"] }
percent-encoding = "2"
rand = "0.9"
reqwest = { version = "0.12", default-features = false, features = ["stream", "rustls-tls"] }
serde = { version = "1", features = ["derive"] }
serde_json = "1"
thiserror = "2"
tokio = { version = "1", features = ["time", "macros", "rt-multi-thread", "sync"] }
url = "2"
