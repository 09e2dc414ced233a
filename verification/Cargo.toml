[package]
name = "click_counter"
version = "0.1.0"
edition = "2021"
publish = false

[dependencies]
axum = "*"
chrono = "*"
serde = { version = "*", features = ["derive"] }
serde_json = "*"
tokio = { version = "*", features = ["macros", "rt-multi-thread", "net", "fs", "sync"] }
tracing = "*"
tracing-subscriber = { version = "*", features = ["env-filter"] }
