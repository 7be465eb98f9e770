[package]
name = "file_renamer"
version = "0.1.0"
edition = "2021"
publish = false

[dependencies]
regex = "1"
tokio = { version = "1", features = ["fs", "rt-multi-thread", "macros"] }
