[package]
name = "whatsapp_core"
version = "0.1.0"
edition = "2021"
publish = false

[dependencies]
serde = { version = "*", features = ["derive"] }
serde_json = "*"
thiserror = "*"
chrono = "*"
tokio = { version = "*", features = ["sync"] }
reqwest = { version = "*", default-features = false, features = ["json"] }
tracing = "*"
