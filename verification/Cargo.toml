[package]
name = "heater_panel"
version = "0.1.0"
edition = "2021"
publish = false

[dependencies]
image = { version = "*", default-features = false }
fastrand = "*"
axum = "0.6"
tokio = { version = "1", features = ["rt", "rt-multi-thread", "macros", "sync", "time"] }
serde = { version = "1", features = ["derive"] }
tower-http = { version = "0.4", features = ["trace"] }
tracing = "*"
tracing-subscriber = "*"
rppal = "*"
