[package]
name = "edgeless_core"
version = "0.1.0"
edition = "2021"
publish = false

[dependencies]
uuid = "*"
opentelemetry = "*"
tokio = { version = "*", features = ["sync", "rt", "macros", "time"] }
futures = "*"
log = "*"
anyhow = "*"
async-trait = "*"

[dev-dependencies]
minicbor = "*"
