[package]
name = "defitax"
version = "0.1.0"
edition = "2021"
publish = false

[dependencies]
clap = { version = "*", features = ["derive"] }
ethereum-types = "*"
reqwest = { version = "*", default-features = false }
serde = "*"
serde_json = "*"
tokio = { version = "*", features = ["macros", "rt-multi-thread"] }
