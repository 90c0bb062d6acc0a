[package]
name = "plua"
version = "0.1.0"
edition = "2021"
publish = false

[dependencies]
mlua = { version = "*", features = ["lua54", "vendored"] }
serde = { version = "*", features = ["derive"] }
serde_json = "*"
rand = "*"
tokio = { version = "*", features = ["sync", "rt", "rt-multi-thread", "macros", "time"] }
anyhow = "*"
