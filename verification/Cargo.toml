[package]
name = "fastpatch"
version = "0.2.2"
edition = "2021"
publish = false

[dependencies]
serde = { version = "1", features = ["derive"] }
serde_json = "1"
chrono = "0.4"
reqwest = { version = "0.12", default-features = false, features = ["rustls-tls"] }
tokio = { version = "1", features = ["rt-multi-thread", "time", "macros"] }
zip = { version = "2", default-features = false, features = ["deflate"] }
sevenz-rust = "0.6"
