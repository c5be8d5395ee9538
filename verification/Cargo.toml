[package]
name = "comic_download"
version = "0.1.0"
edition = "2021"
publish = false

[dependencies]
anyhow = "1"
linked-hash-map = { version = "0.5", features = ["serde_impl"] }
sea-orm = { version = "1", default-features = false, features = ["macros"] }
serde = { version = "1", features = ["derive"] }
serde_derive = "1"
serde_json = "1"
tokio = { version = "1", default-features = false, features = ["sync"] }
