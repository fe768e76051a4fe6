[package]
name = "digest_indexer"
version = "0.1.0"
edition = "2021"
publish = false

[dependencies]
anyhow = "1"
async-trait = "0.1"
axum = "0.8"
diesel = { version = "2", features = ["postgres_backend"] }
diesel-async = { version = "0.9", features = ["postgres"] }
dotenvy = "0.15"
serde = { version = "1", features = ["derive"] }
tokio = { version = "1", features = ["full"] }
