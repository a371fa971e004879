[package]
name = "deduplicate"
version = "0.4.0"
edition = "2021"
publish = false

[dependencies]
lru = "0.12"
parking_lot = "0.12"
thiserror = "1"
tokio = { version = "1", features = ["sync", "rt", "macros"] }
