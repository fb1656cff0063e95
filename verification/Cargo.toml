[package]
name = "ollama_native"
version = "0.1.0"
edition = "2021"
publish = false

[dependencies]
reqwest = { version = "*", default-features = false, features = ["json", "stream"] }
tokio = { version = "*", features = ["fs", "rt"] }
tokio-stream = "*"
tokio-util = { version = "*", features = ["codec", "io"] }
futures = "*"
bytes = "*"
async-stream = "*"
async-trait = "*"
serde = { version = "*", features = ["derive"] }
serde_json = "*"
thiserror = "*"
