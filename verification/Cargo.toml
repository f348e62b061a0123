[package]
name = "kindroid_manager"
version = "0.1.0"
edition = "2021"
publish = false

[dependencies]
serde = { version = "=1.0.229", features = ["derive"] }
serde_json = "=1.0.154"
base64 = "=0.22.1"
uuid = { version = "=1.29.0", features = ["v4", "serde"] }
chrono = { version = "=0.4.45", features = ["serde"] }
image = { version = "=0.25.10", default-features = false, features = ["png", "jpeg"] }
png = "=0.17.16"
tokio = { version = "=1.54.1", features = ["rt", "macros", "sync", "time"] }
async-trait = "=0.1.92"
reqwest = { version = "=0.12.28", default-features = false, features = ["json", "rustls-tls"] }
rusqlite = { version = "=0.31.0", features = ["bundled"] }
keyring = { version = "=3.6.3", features = ["linux-native"] }
thiserror = "=1.0.69"
tracing = "=0.1.44"

[dev-dependencies]
flate2 = "=1.1.10"
