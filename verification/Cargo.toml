[package]
name = "tubemin"
version = "0.1.0"
edition = "2021"
publish = false

[dependencies]
anyhow = "=1.0.104"
axum = "=0.7.9"
bcrypt = "=0.15.1"
chrono = "=0.4.45"
dotenvy = "=0.15.7"
futures-util = "=0.3.34"
getrandom = "=0.4.3"
minijinja = "=2.24.0"
notify = "=6.1.1"
openidconnect = "=3.5.0"
reqwest = { version = "=0.11.27", default-features = false, features = ["json", "multipart", "stream", "rustls-tls"] }
serde = { version = "=1.0.229", features = ["derive"] }
serde_json = "=1.0.154"
sqlx = { version = "=0.7.4", default-features = false, features = ["runtime-tokio", "sqlite", "macros", "migrate"] }
thiserror = "=1.0.69"
tokio = { version = "=1.54.1", features = ["full"] }
tokio-tungstenite = "=0.21.0"
tokio-util = { version = "=0.7.20", features = ["io"] }
tower-http = { version = "=0.5.2", features = ["cors", "fs"] }
tower-sessions = "=0.12.3"
tracing = "=0.1.44"
tracing-subscriber = { version = "=0.3.23", features = ["env-filter"] }
uuid = { version = "=1.29.0", features = ["v4"] }
