[package]
name = "crawl_session"
version = "0.1.0"
edition = "2021"
publish = false

[dependencies]
indexmap = "2"
napi = { version = "2", default-features = false, features = ["napi4", "tokio_rt", "serde-json"] }
napi-derive = "2"
serde_json = "1"
spider = { version = "1", features = ["sync", "cron", "control", "headers", "serde"] }
