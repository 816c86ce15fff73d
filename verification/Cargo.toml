[package]
name = "context_rag"
version = "0.1.0"
edition = "2021"
publish = false

[dependencies]
sha2 = "0.10"
hex = "0.4"
tantivy = "0.22"
walkdir = "2"
neon = "1"
serde = { version = "1", features = ["derive"] }
serde_json = "1"
anyhow = "1"
