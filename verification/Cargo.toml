[package]
name = "hs_quiz"
version = "0.1.0"
edition = "2021"
publish = false

[dependencies]
anyhow = "1"
meilisearch-sdk = "*"
regex = "1"
reqwest = "*"
serde = { version = "1", features = ["derive"] }
serde_json = "1"
tokio = { version = "1", features = ["macros", "rt-multi-thread"] }
