[package]
name = "kubernetes_auth"
version = "0.1.0"
edition = "2021"
publish = false

[dependencies]
anyhow = "=1.0.104"
base64 = "=0.22.1"
poem = { version = "=3.1.12", default-features = false, features = ["anyhow", "server"] }
reqwest = { version = "=0.12.28", default-features = false, features = ["rustls-tls-manual-roots"] }
sea-orm = { version = "1", default-features = false }
time = { version = "=0.3.55", features = ["std"] }
tokio = { version = "=1.54.1", features = ["sync"] }
tracing = "=0.1.44"
uuid = { version = "=1.29.0", features = ["v4"] }
