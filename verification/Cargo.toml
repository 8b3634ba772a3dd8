[package]
name = "dawmcp"
version = "0.1.0"
edition = "2021"
publish = false

[dependencies]
anyhow = "1"
async-trait = "0.1"
rmcp = { version = "*", features = ["server", "macros", "transport-io"] }
schemars = "*"
serde = { version = "1", features = ["derive"] }
serde_json = "1"
sysinfo = "*"
thiserror = "*"
tokio = { version = "1", features = ["full"] }
uuid = { version = "1", features = ["v4"] }
