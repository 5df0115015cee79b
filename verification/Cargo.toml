[package]
name = "micro_mcp"
version = "0.1.0"
edition = "2021"
publish = false

[dependencies]
async-trait = "=0.1.92"
rust-mcp-sdk = { version = "=1.1.0", default-features = false, features = ["server", "stdio"] }
serde_json = "=1.0.151"
tokio = { version = "=1.53.2", features = ["full"] }
