[package]
name = "macp"
version = "0.5.0"
edition = "2021"
publish = false

[dependencies]
async-trait = "=0.1.92"
jsonwebtoken = "=9.3.1"
prost = "=0.14.4"
serde = { version = "=1.0.229", features = ["derive"] }
serde_json = { version = "=1.0.154", features = ["preserve_order"] }
sha2 = "=0.10.9"
tokio = { version = "=1.54.1", features = ["sync", "time", "rt", "macros"] }
tonic = "=0.14.9"
tracing = "=0.1.44"
uuid = { version = "=1.29.0", features = ["v4"] }
