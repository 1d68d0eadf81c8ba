[package]
name = "cnova"
version = "0.1.0"
edition = "2021"
publish = false

[dependencies]
clap = { version = "=4.6.7", features = ["derive"] }
ignore = "=0.4.33"
lofty = "=0.25.4"
reqwest = { version = "=0.13.5", default-features = false, features = ["json", "query"] }
serde = { version = "=1.0.229", features = ["derive"] }
serde_json = "=1.0.151"
thiserror = "=2.0.21"
tokio = { version = "=1.53.2", features = ["rt-multi-thread", "macros", "fs", "sync"] }
tracing = "=0.1.44"
tracing-subscriber = "=0.3.23"
