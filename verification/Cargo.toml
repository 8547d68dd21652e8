[package]
name = "codexify"
version = "0.1.0"
edition = "2021"
publish = false

[dependencies]
base64 = "*"
rmcp = { version = "*", features = ["server", "transport-io", "transport-streamable-http-server"] }
schemars = "*"
serde = { version = "*", features = ["derive"] }
serde_json = "*"
tokio = { version = "*", features = ["macros", "rt-multi-thread", "process", "time", "io-std"] }
