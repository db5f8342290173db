[package]
name = "stt-core"
version = "0.1.0"
edition = "2021"
publish = false

[dependencies]
serde = { version = "=1.0.229", features = ["derive"] }
serde_json = "=1.0.154"
serde_json_path = "=0.7.2"
clap = { version = "=4.6.7", features = ["derive"] }
tokio = { version = "=1.54.1", features = ["rt-multi-thread", "macros", "fs", "time", "signal", "process", "io-util"] }
tokio-util = { version = "=0.7.20", features = ["io"] }
reqwest = { version = "=0.12.28", default-features = false, features = ["multipart", "stream", "http2", "rustls-tls"] }
thiserror = "=2.0.21"
chrono = "=0.4.45"
uuid = { version = "=1.29.0", features = ["v4"] }

[dev-dependencies]
hound = "=3.5.1"
