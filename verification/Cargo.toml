[package]
name = "coinbot"
version = "0.1.0"
edition = "2021"
publish = false

[dependencies]
anyhow = "*"
clap = { version = "*", features = ["derive"] }
reqwest = { version = "*", default-features = false, features = ["json", "query"] }
serde_json = "*"
tera = "=1.20.1"
tokio = { version = "*", features = ["macros", "rt-multi-thread"] }
tracing = "*"
tracing-subscriber = "*"
