[package]
name = "jwk_auth"
version = "0.1.0"
edition = "2021"
publish = false

[dependencies]
jsonwebtoken = "=9.3.1"
serde = { version = "=1.0.229", features = ["derive"] }
reqwest = { version = "=0.11.27", default-features = false, features = ["json", "rustls-tls"] }
tokio = { version = "=1.54.1", features = ["rt", "sync", "time"] }
tracing = "=0.1.44"
async-trait = "=0.1.92"

[dev-dependencies]
serde_json = "=1.0.154"
