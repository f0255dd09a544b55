[package]
name = "chat_feed"
version = "0.1.0"
edition = "2021"
publish = false

[dependencies]
ammonia = "3"
atom_syndication = "0.11"
axum = "0.5"
chrono = "0.4"
clap = { version = "3", features = ["derive", "env"] }
linkify = "0.9"
log = "0.4"
miette = "5"
pretty_env_logger = "0.4"
ringbuffer = "0.8"
serenity = "0.11"
substring = "1.4"
tokio = { version = "1", features = ["macros", "rt-multi-thread"] }
tokio-graceful-shutdown = "0.11"
