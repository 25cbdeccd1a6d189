[package]
name = "openai_proxy_lib"
version = "0.1.0"
edition = "2021"
publish = false

[dependencies]
dirs = "5"
uuid = { version = "1", features = ["v4"] }
serde = { version = "1", features = ["derive"] }
serde_json = "1"
serde_yml = "*"
toml = "0.8"
axum = "0.8"
tokio = { version = "1", features = ["full"] }
reqwest = { version = "0.12", default-features = false, features = ["json", "stream", "rustls-tls"] }
futures-util = "0.3"
tower-http = { version = "0.6", features = ["cors", "trace"] }
tracing = "0.1"
tracing-subscriber = { version = "0.3", features = ["env-filter"] }
clap = { version = "4", features = ["derive", "env"] }
dotenvy = "0.15"
anyhow = "1"
thiserror = "2"
tokio-util = { version = "0.7", features = ["compat"] }
agent-client-protocol = "*"
chrono = "0.4"
