[package]
name = "issuer_core"
version = "0.1.0"
edition = "2021"
publish = false

[dependencies]
hex = "*"
risc0-zkp = "*"
serde = { version = "*", features = ["derive"] }
