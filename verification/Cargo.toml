[package]
name = "codex_usage"
version = "0.1.0"
edition = "2021"
publish = false

[dependencies]
unicode-width = "0.1"
strip-ansi-escapes = "*"
anyhow = "*"
chrono = "*"
colored = "*"
dirs = "*"
reqwest = { version = "*", default-features = false }
serde = { version = "*", features = ["derive"] }
serde_json = "*"
tokio = { version = "*", features = ["macros", "rt"] }
