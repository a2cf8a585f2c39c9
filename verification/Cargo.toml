[package]
name = "health_guard"
version = "0.1.0"
edition = "2021"
publish = false

[dependencies]
base64 = "0.22"
rusqlite = { version = "0.31", features = ["bundled"] }
reqwest = { version = "0.12", default-features = false, features = ["stream", "rustls-tls"] }
tokio = { version = "1", features = ["rt-multi-thread", "macros", "time"] }
futures-util = "0.3"
chrono = "0.4"
uuid = { version = "1", features = ["v4"] }
