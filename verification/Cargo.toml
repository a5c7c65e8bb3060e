[package]
name = "charts_rs"
version = "0.1.0"
edition = "2021"
publish = false

[dependencies]
dirs = "*"
reqwest = { version = "*", default-features = false, features = ["rustls-tls"] }
serde = { version = "1", features = ["derive"] }
serde_json = "1"
tokio = { version = "1", features = ["macros", "rt-multi-thread"] }
