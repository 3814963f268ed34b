[package]
name = "static_web_server"
version = "0.1.0"
edition = "2021"
publish = false

[dependencies]
mime_guess = "=2.0.5"
regex = "=1.13.1"
regex-lite = "=0.1.9"
aho-corasick = "=1.1.5"
globset = "=0.4.21"
percent-encoding = "=2.3.2"
http = "=1.5.0"
tokio = { version = "=1.54.1", features = ["rt-multi-thread", "net", "fs", "io-util", "signal", "macros", "time"] }
hyper = { version = "=1.12.0", features = ["server", "http1"] }
hyper-util = { version = "=0.1.21", features = ["tokio"] }
http-body-util = "=0.1.5"
bytes = "=1.12.1"
clap = { version = "=4.6.7", features = ["derive"] }
serde = { version = "=1.0.229", features = ["derive"] }
toml = "=0.8.23"
serde_ignored = "=0.1.14"
prometheus = { version = "=0.13.4", default-features = false }
tracing = "=0.1.44"
tracing-subscriber = "=0.3.23"
anyhow = "=1.0.104"
headers = "0.4"
mini-moka = "0.10"
