[package]
name = "task_manager"
version = "0.1.0"
edition = "2021"
publish = false

[dependencies]
uuid = { version = "1", features = ["v4"] }
tokio = { version = "1", features = ["macros", "rt-multi-thread", "net", "sync"] }
axum = "0.7"
tower-http = { version = "0.5", features = ["cors", "fs"] }
tracing-subscriber = "0.3"
serde = { version = "1", features = ["derive"] }
