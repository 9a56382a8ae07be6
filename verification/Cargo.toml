[package]
name = "crash_report"
version = "0.1.0"
edition = "2021"
publish = false

[dependencies]
flate2 = "1"
quick-xml = "*"
axum = "*"
tokio = { version = "1", features = ["rt-multi-thread", "macros", "net"] }
tower-http = { version = "*", features = ["trace"] }
tracing = "*"
tracing-subscriber = "*"
clap = { version = "*", features = ["derive"] }
serde = { version = "*", features = ["derive"] }
serde_json = "*"
chrono = "*"
webhook = "*"
