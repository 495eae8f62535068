[package]
name = "identity_core"
version = "0.1.0"
edition = "2021"
publish = false

[dependencies]
rand = "=0.10.3"
sha2 = "=0.11.0"
hex = "=0.4.3"
serde = { version = "=1.0.229", features = ["derive"] }
serde_json = "=1.0.151"
axum = "=0.8.9"
tokio = { version = "=1.53.2", features = ["full"] }
clap = { version = "=4.6.7", features = ["derive", "env"] }
tower_governor = "=0.8.0"
reqwest = { version = "=0.13.5", default-features = false, features = ["json"] }
resend-rs = "=0.34.0"
