[package]
name = "yao_mcp"
version = "0.1.0"
edition = "2021"
publish = false

[dependencies]
path-absolutize = "*"
path_trav = "*"
rmcp = { version = "*", features = ["server", "transport-io", "transport-streamable-http-server"] }
axum = { version = "*", default-features = false }
clap = { version = "*", features = ["derive", "env"] }
hyper-util = { version = "*", features = ["server-auto", "service", "tokio"] }
serde = { version = "*", features = ["derive"] }
serde_json = "*"
tokio = { version = "*", features = ["full"] }
tracing = { version = "*", features = ["log"] }
tracing-subscriber = "*"

[dev-dependencies]
tempfile = "*"
