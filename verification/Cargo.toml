[package]
name = "nlm"
version = "0.2.1"
edition = "2021"
publish = false

[dependencies]
anyhow = "=1.0.104"
clap = { version = "=4.6.7", features = ["derive"] }
dotenvy = "=0.15.7"
htmd = "=0.5.6"
quick-xml = "=0.37.5"
regex = "=1.13.1"
reqwest = { version = "=0.12.28", default-features = false, features = ["json", "cookies", "rustls-tls"] }
serde = { version = "=1.0.229", features = ["derive"] }
serde_json = "=1.0.154"
serde_yaml = "=0.9.34"
tokio = { version = "=1.54.1", features = ["full"] }
urlencoding = "=2.1.3"
zip = { version = "=9.2.2", default-features = false, features = ["deflate"] }
