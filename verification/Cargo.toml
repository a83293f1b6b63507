[package]
name = "giveaways"
version = "0.1.0"
edition = "2021"
publish = false

[dependencies]
regex = "1"
uuid = { version = "1", features = ["v4"] }
dashmap = "*"
orx-concurrent-vec = "*"
crossbeam = "0.8"
lazy_static = "1"
thiserror = "*"
serenity = "0.12"
poise = "0.6"
tokio = { version = "1", features = ["macros", "rt-multi-thread"] }
tracing = "0.1"
tracing-subscriber = "0.3"
