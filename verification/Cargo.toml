[package]
name = "vareliox"
version = "0.1.0"
edition = "2021"
publish = false

[dependencies]
url = "=2.5.8"
serde = { version = "=1.0.229", features = ["derive"] }
serde_json = "=1.0.154"
tokio = { version = "=1.54.1", features = ["rt", "rt-multi-thread", "macros", "process", "time", "net", "sync", "io-util"] }
tokio-util = "=0.7.20"
futures-util = "=0.3.34"
reqwest = { version = "=0.12.28", default-features = false, features = ["stream", "rustls-tls"] }

[dev-dependencies]
tempfile = "3"
