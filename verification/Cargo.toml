[package]
name = "webshot"
version = "0.1.0"
edition = "2021"
publish = false

[dependencies]
anyhow = "1"
clap = { version = "4", features = ["derive"] }
console = "*"
headless_chrome = "*"
serde = { version = "1", features = ["derive"] }
toml = "*"
