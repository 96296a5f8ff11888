[package]
name = "poster"
version = "0.1.0"
edition = "2021"
publish = false

[dependencies]
async-recursion = "=1.2.0"
axum = "=0.6.20"
axum-login = { version = "=0.5.0", features = ["sqlite"] }
axum-sessions = "=0.5.0"
axum-template = { version = "=0.19.0", features = ["minijinja"] }
chrono = "=0.4.45"
futures-util = "=0.3.34"
minijinja = { version = "=1.0.22", features = ["loader"] }
rand = "=0.8.8"
serde = { version = "=1.0.229", features = ["derive"] }
serde_json = "=1.0.154"
sqlx = { version = "=0.6.3", features = ["runtime-tokio-rustls", "sqlite"] }
tokio = { version = "=1.54.1", features = ["full"] }
tower = "=0.4.13"
tower-http = { version = "=0.4.4", features = ["normalize-path"] }
