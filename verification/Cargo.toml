[package]
name = "crash_interact"
version = "0.1.0"
edition = "2021"
publish = false

[dependencies]
clap = { version = "*", features = ["derive"] }
env_logger = "*"
tokio = { version = "*", features = ["macros", "rt-multi-thread"] }
multiversx-sc-snippets = "*"
