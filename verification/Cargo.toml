[package]
name = "audiobookshelf_mcp"
version = "0.1.0"
edition = "2021"
publish = false

[dependencies]
anyhow = "=1.0.104"
axum = "=0.8.9"
clap = { version = "=4.6.7", features = ["derive", "env"] }
reqwest = { version = "=0.12.28", features = ["json"] }
rmcp = { version = "=3.8.0", features = ["transport-io", "transport-streamable-http-server"] }
schemars = "=1.2.3"
serde = { version = "=1.0.229", features = ["derive"] }
serde_json = "=1.0.154"
subtle = "=2.6.1"
tokio = { version = "=1.54.1", features = ["full"] }
tower-http = { version = "=0.7.1", features = ["cors", "trace"] }
tracing = "=0.1.44"
tracing-subscriber = { version = "=0.3.23", features = ["env-filter"] }
