[package]
name = "ropds_bot"
version = "0.2.0"
edition = "2021"
publish = false
rust-version = "1.95"

[dependencies]
anyhow = "1"
base64 = "=0.22.1"
dashmap = "=6.2.1"
dotenvy = "0.15"
dptree = "=0.3.0"
redis = { version = "=0.25.5", default-features = false, features = ["tokio-comp"] }
reqwest = { version = "=0.12.28", default-features = false, features = ["rustls-tls", "blocking"] }
serde = { version = "1", features = ["derive"] }
serde_json = "1"
takecell = "=0.1.1"
teloxide = { version = "=0.13.0", default-features = false, features = ["macros", "rustls", "ctrlc_handler"] }
tokio = { version = "1", features = ["full"] }
tracing = "0.1"
tracing-subscriber = { version = "0.3", features = ["env-filter"] }
urlencoding = "=2.1.3"
