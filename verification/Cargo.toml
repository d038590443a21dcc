[package]
name = "nadoeda"
version = "0.1.0"
edition = "2021"
publish = false

[dependencies]
chrono = "0.4"
chrono-tz = "0.10"
tokio = { version = "1", features = ["rt-multi-thread", "time", "sync", "macros"] }
