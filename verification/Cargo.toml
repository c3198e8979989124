[package]
name = "mart"
version = "0.1.0"
edition = "2021"
publish = false

[dependencies]
axum = { version = "0.6", features = ["ws"] }
dashmap = "5"
futures = "0.3"
nanoid = "0.4"
once_cell = "1"
rand = "0.8"
rkyv = { version = "0.7", features = ["validation"] }
tokio = { version = "1", features = ["macros", "rt-multi-thread", "sync"] }
