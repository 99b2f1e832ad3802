[package]
name = "task_extraction"
version = "0.1.0"
edition = "2021"
publish = false

[dependencies]
futures = "0.3"
futures-util = "0.3"
tonic = { version = "*", default-features = false }
tracing = { version = "0.1", default-features = false, features = ["std"] }
