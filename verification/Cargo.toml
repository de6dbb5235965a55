[package]
name = "talos"
version = "0.1.0"
edition = "2021"
publish = false

[dependencies]
zip = { version = "0.6", default-features = false, features = ["deflate"] }
serde = { version = "1", features = ["derive"] }
serde_json = "1"
axum = { version = "0.7", features = ["multipart"] }
tokio = { version = "1", features = ["full"] }
reqwest = { version = "0.12", default-features = false, features = ["json", "multipart"] }
uuid = { version = "1", features = ["v4"] }
walkdir = "2"
tower-sessions = "0.13"
tower-http = { version = "0.5", features = ["fs", "compression-gzip"] }
sqlx = { version = "0.7", default-features = false, features = ["sqlite", "runtime-tokio"] }
time = "0.3"
zeroize = { version = "1", features = ["derive"] }
