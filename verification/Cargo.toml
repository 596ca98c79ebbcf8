[package]
name = "calendar_registry"
version = "0.1.0"
edition = "2021"
publish = false

[dependencies]
csv = "1"
uuid = { version = "1", features = ["v4"] }
serde = { version = "1", features = ["derive"] }
tokio = { version = "1", features = ["full"] }
axum = "*"
reqwest = "*"
tower-http = { version = "*", features = ["fs"] }
fantoccini = "*"
