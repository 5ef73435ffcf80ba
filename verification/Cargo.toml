[package]
name = "rhaicp"
version = "0.1.0"
edition = "2021"
publish = false

[dependencies]
anyhow = "*"
clap = { version = "*", features = ["derive"] }
rhai = "=1.26.1"
rmcp = { version = "=3.5.1", features = ["client", "transport-child-process", "transport-streamable-http-client", "transport-streamable-http-client-reqwest"] }
sacp = "=11.0.0"
sacp-tokio = "=11.0.0"
serde_json = "=1.0.151"
tokio = { version = "*", features = ["full"] }
tracing = "*"
tracing-subscriber = { version = "*", features = ["env-filter"] }
uuid = { version = "*", features = ["v4"] }
