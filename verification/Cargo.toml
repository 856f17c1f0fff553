[package]
name = "hq_tracker"
version = "0.1.0"
edition = "2021"
publish = false

[dependencies]
anyhow = "1"
chrono = "0.4"
env_logger = "0.11"
log = "0.4"
sqlx = { version = "0.8", default-features = false, features = ["runtime-tokio", "mysql", "chrono"] }
tokio = { version = "1", features = ["rt-multi-thread", "macros", "io-util", "net", "time"] }
