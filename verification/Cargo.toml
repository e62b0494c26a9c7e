[package]
name = "auth-service"
version = "0.1.0"
edition = "2021"
publish = false

[dependencies]
uuid = { version = "=1.29.0", features = ["v4"] }
chrono = "=0.4.45"
base64 = "=0.22.1"
sha2 = "=0.10.9"
rand = "=0.8.8"
hex = "=0.4.3"
serde = { version = "=1.0.229", features = ["derive"] }
serde_json = "=1.0.154"
dashmap = "=5.5.3"
ciborium = "=0.2.2"
p256 = { version = "=0.13.2", features = ["ecdsa"] }
p384 = { version = "0.13", features = ["ecdsa"] }
rsa = "=0.9.10"
ring = "=0.17.14"
tokio = { version = "=1.54.1", features = ["sync", "rt", "macros", "time"] }
async-trait = "=0.1.92"
thiserror = "=1.0.69"
tracing = "=0.1.44"
