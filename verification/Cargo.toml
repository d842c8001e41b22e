[package]
name = "deepseek-app-lib"
version = "0.1.0"
edition = "2021"
publish = false

[dependencies]
serde = { version = "1", features = ["derive"] }
serde_json = "1"
serde_yaml = "0.9"
uuid = { version = "1", features = ["v4"] }
chrono = "0.4"
dirs = "5"
reqwest = { version = "0.12", default-features = false, features = ["json", "stream", "rustls-tls"] }
tokio = { version = "1", features = ["rt-multi-thread", "macros", "process", "time", "sync", "fs"] }
futures-util = "0.3"
bytes = "1"
include_dir = "0.7"
keyring = "3"
thiserror = "1"
