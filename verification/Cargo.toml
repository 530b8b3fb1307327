[package]
name = "qmp-mcp"
version = "0.1.0"
edition = "2021"
publish = false

[dependencies]
async-trait = "0.1"
axum = "0.8"
futures-util = "0.3"
getrandom = "0.3"
jsonwebtoken = "9"
libc = "0.2"
reqwest = { version = "0.12", default-features = false, features = ["stream", "rustls-tls"] }
rmcp = { version = "0.8", features = ["server", "macros", "transport-io", "transport-streamable-http-server"] }
schemars = "1"
serde = { version = "1", features = ["derive"] }
serde_json = "1"
serde_yaml_ng = "0.10"
thiserror = "2"
tokio = { version = "1", features = ["rt-multi-thread", "macros", "net", "io-util", "io-std", "process", "sync", "time", "signal", "fs"] }
tracing = "0.1"
tracing-subscriber = { version = "0.3", features = ["env-filter"] }
