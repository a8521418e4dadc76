[package]
name = "arcis"
version = "0.1.0"
edition = "2021"
publish = false

[dependencies]
async-lsp = { version = "0.2", features = ["tokio", "stdio"] }
clap = { version = "4", features = ["derive"] }
serde_json = "1"
tokio = { version = "1", features = ["rt", "macros", "io-std"] }
