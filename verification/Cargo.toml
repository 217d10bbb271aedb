[package]
name = "rebels"
version = "0.1.0"
edition = "2021"
publish = false

[dependencies]
anyhow = "1"
clap = { version = "4", features = ["derive"] }
http-body-util = "0.1"
hyper = { version = "1", features = ["client", "http1"] }
hyper-rustls = { version = "0.27", default-features = false, features = ["http1", "webpki-tokio"] }
hyper-util = { version = "0.1", features = ["client", "client-legacy", "http1", "tokio"] }
log = "0.4"
rustls-rustcrypto = "0.0.2-alpha"
serde = { version = "1", features = ["derive"] }
serde_json = "1"
symphonia = { version = "0.5", default-features = false, features = ["mp3"] }
tinyaudio = "*"
tokio = { version = "1", features = ["full"] }
tokio-util = "0.7"
url = "2"
