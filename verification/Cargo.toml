[package]
name = "xbot"
version = "0.1.0"
edition = "2021"
publish = false

[dependencies]
anyhow = "1"
cairo-rs = "0.17"
dotenv = "0.15"
env_logger = "0.10"
log = "0.4"
pango = "0.17"
pangocairo = "0.17"
poise = "0.5"
reqwest = { version = "0.11", default-features = false, features = ["json", "rustls-tls"] }
serde = { version = "1", features = ["derive"] }
serenity = "0.11"
tokio = { version = "1", features = ["macros", "rt-multi-thread"] }
