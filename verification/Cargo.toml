[package]
name = "terrain"
version = "0.1.0"
edition = "2021"
publish = false

[dependencies]
dashmap = "=6.2.1"
futures = { version = "0.3", default-features = false, features = ["std"] }
image = { version = "=0.25.10", default-features = false, features = ["webp"] }
once_cell = "1"
reqwest = { version = "0.13", default-features = false }
tokio = { version = "1", features = ["rt-multi-thread", "sync"] }
