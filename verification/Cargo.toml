[package]
name = "moq_interop"
version = "0.1.0"
edition = "2021"
publish = false

[dependencies]
anyhow = "=1.0.104"
clap = { version = "=4.6.7", features = ["derive", "env"] }
moq-native = "0.13"
tokio = { version = "=1.54.1", features = ["macros", "rt-multi-thread", "time"] }
tracing-subscriber = { version = "=0.3.23", features = ["env-filter"] }
url = "=2.5.8"
