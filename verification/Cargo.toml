[package]
name = "bonfire"
version = "0.1.0"
edition = "2021"
publish = false

[dependencies]
fjall = "*"
tantivy = "*"
tokio = { version = "*", features = ["sync", "rt-multi-thread", "macros", "time", "net"] }
tachyonix = "*"
chrono = "*"
axum = { version = "*", features = ["ws"] }
serde = { version = "*", features = ["derive"] }
serde_json = "*"
serde_path_to_error = "*"
futures = "*"
clap = { version = "*", features = ["derive"] }
dotenv = "*"
anstyle = "*"
tracing = "*"
tracing-subscriber = "*"
snowflaked = "*"
