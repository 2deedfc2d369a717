[package]
name = "cargo_ws_manage"
version = "0.1.0"
edition = "2021"
publish = false

[dependencies]
clap = { version = "*", features = ["derive"] }
serde = { version = "1", features = ["derive"] }
toml = "*"
