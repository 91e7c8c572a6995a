[package]
name = "rolling_logger"
version = "0.3.0"
edition = "2021"
publish = false

[dependencies]
anyhow = "1"
chrono = "0.4"
chrono-tz = "0.10"
flate2 = "1"
log = { version = "0.4", features = ["std"] }
serde = { version = "1", features = ["derive"] }
slog = "2"
tracing = "0.1"
tracing-appender = "0.2"
tracing-subscriber = { version = "0.3", features = ["env-filter"] }
