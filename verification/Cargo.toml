[package]
name = "codex_logic"
version = "0.1.0"
edition = "2021"
publish = false

[dependencies]
chrono = "0.4"
owo-colors = "4"
clap = { version = "4", features = ["derive"] }
dirs = "6"
anyhow = "1"
