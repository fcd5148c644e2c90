[package]
name = "xyzen_relay"
version = "0.1.0"
edition = "2021"
publish = false

[dependencies]
anyhow = "=1.0.104"
axum = { version = "=0.7.9", features = ["ws"] }
bytes = "=1.12.1"
chrono = "=0.4.45"
clap = { version = "=4.6.7", features = ["derive", "env"] }
env_logger = "=0.11.11"
futures-util = "=0.3.34"
log = "=0.4.35"
prost = "=0.13.5"
rand = "=0.8.8"
reqwest = { version = "=0.12.28", default-features = false, features = ["json"] }
serde = { version = "=1.0.229", features = ["derive"] }
serde_json = "=1.0.154"
sqlx = { version = "=0.8.6", default-features = false, features = ["runtime-tokio", "sqlite"] }
thiserror = "=1.0.69"
tokio = { version = "=1.54.1", features = ["full"] }
tokio-tungstenite = "=0.24.0"
tokio-util = { version = "=0.7.20", features = ["codec"] }
tower-http = { version = "=0.6.11", features = ["trace"] }
tracing = "=0.1.44"
tracing-subscriber = { version = "=0.3.23", features = ["env-filter"] }
windows = { version = "0.62", features = ["Win32_Foundation", "Win32_Media_MediaFoundation", "Win32_System_Com"] }
windows-capture = "2.0"
