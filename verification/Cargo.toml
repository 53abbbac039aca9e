[package]
name = "stellar_defi_hub"
version = "0.1.0"
edition = "2021"
publish = false

[dependencies]
soroban-sdk = "*"
axum = "0.6"
tokio = { version = "1", features = ["full"] }
