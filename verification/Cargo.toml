[package]
name = "todo_backend"
version = "0.1.0"
edition = "2021"
publish = false

[dependencies]
uuid = { version = "=1.27.0", features = ["v4", "serde"] }
chrono = "=0.4.45"
axum = { version = "=0.7.9", features = ["ws"] }
tokio = { version = "1", features = ["rt-multi-thread", "macros", "net", "time"] }
tower-http = { version = "=0.5.2", features = ["cors"] }
serde = { version = "1", features = ["derive"] }
tracing-subscriber = "0.3"
