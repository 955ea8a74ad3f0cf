[package]
name = "stack_underflow"
version = "0.1.0"
edition = "2021"
publish = false

[dependencies]
uuid = { version = "1", features = ["v4"] }
axum = "=0.6.20"
tokio = { version = "1", features = ["macros", "rt-multi-thread", "sync", "net"] }
tower = "0.4"
tower-http = { version = "0.4", features = ["cors"] }
tracing = "0.1"
tracing-subscriber = { version = "0.3", features = ["fmt", "json"] }
serde = { version = "1", features = ["derive"] }
serde_json = "1"
dotenv = "0.15"
