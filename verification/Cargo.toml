[package]
name = "everything"
version = "0.1.0"
edition = "2021"
publish = false

[dependencies]
ulid = "1"
memmap2 = "0.9"
tokio = { version = "1", features = ["fs", "sync", "rt", "macros"] }
