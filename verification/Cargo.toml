[package]
name = "robin-smesh"
version = "0.1.0"
edition = "2021"
publish = false

[dependencies]
regex = "=1.13.1"
sha2 = "=0.10.9"
serde = { version = "=1.0.229", features = ["derive"] }
serde_json = "=1.0.154"
chrono = { version = "=0.4.45", default-features = false, features = ["clock", "std"] }
uuid = { version = "=1.29.0", features = ["v4"] }
rand = "=0.8.8"
urlencoding = "=2.1.3"
scraper = "=0.29.0"
toml = "=0.8.23"
reqwest = { version = "=0.12.28", default-features = false, features = ["json", "socks", "rustls-tls"] }
tokio = { version = "=1.54.1", features = ["rt-multi-thread", "macros", "time"] }
futures = "=0.3.34"
async-trait = "=0.1.92"
async-openai = { version = "=0.42.2", features = ["chat-completion"] }
anyhow = "=1.0.104"
thiserror = "=1.0.69"
clap = { version = "=4.6.7", features = ["derive", "env"] }
tracing = "=0.1.44"
tracing-subscriber = "=0.3.23"
