[package]
name = "round_robin"
version = "0.1.0"
edition = "2021"
publish = false

[dependencies]
actix-web = "*"
dotenvy = "*"
tokio = { version = "*", features = ["sync", "macros", "rt-multi-thread"] }
tracing = "*"
tracing-subscriber = "*"
