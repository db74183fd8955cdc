[package]
name = "werewolf_backend"
version = "0.1.0"
edition = "2021"
publish = false

[dependencies]
uuid = { version = "=1.29.0", features = ["v4", "serde"] }
rand = "=0.9.5"
serde = { version = "=1.0.229", features = ["derive"] }
serde_json = "=1.0.154"
axum = { version = "=0.8.9", features = ["ws", "macros"] }
tokio = { version = "=1.54.1", features = ["full"] }
futures = "=0.3.34"
redis = { version = "=1.8.1", features = ["tokio-comp", "connection-manager"] }
tower-http = { version = "=0.6.11", features = ["cors", "trace"] }
tracing = "=0.1.44"
tracing-subscriber = { version = "=0.3.23", features = ["env-filter"] }
utoipa = { version = "=5.5.0", features = ["uuid", "axum_extras"] }
jsonwebtoken = { version = "=11.1.0", default-features = false, features = ["rust_crypto"] }
bcrypt = "=0.19.3"
