[package]
name = "hw1"
version = "0.1.0"
edition = "2021"
publish = false

[dependencies]
serde_json = "1"
reqwest = "0.12"
tokio = { version = "1", features = ["macros", "rt-multi-thread"] }
git2 = "*"
redis = { version = "*", features = ["tokio-comp"] }
