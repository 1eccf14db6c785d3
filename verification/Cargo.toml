[package]
name = "britney"
version = "0.1.0"
edition = "2021"
publish = false

[dependencies]
dotenv = "=0.15.0"
octocrab = "=0.38.0"
ollama-rs = { version = "=0.1.9", features = ["stream"] }
tokio = { version = "=1.54.1", features = ["full"] }
tokio-stream = "=0.1.19"
