[package]
name = "easy_log_forwarding"
version = "0.1.0"
edition = "2021"
publish = false

[dependencies]
serde = { version = "*", features = ["derive"] }
toml = "*"
chrono = "*"
tokio = { version = "*", features = ["macros", "rt-multi-thread", "time", "sync", "net", "io-util"] }
