[package]
name = "ollama_client"
version = "0.1.0"
edition = "2021"
publish = false

[dependencies]
anyhow = "*"
async-trait = "*"
reqwest = { version = "*", default-features = false }
