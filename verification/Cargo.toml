[package]
name = "lemonade"
version = "0.1.0"
edition = "2021"
publish = false

[dependencies]
arboard = "3"
futures-util = "0.3"
local-ip-address = "*"
open = "5"
serde = { version = "1", features = ["derive"] }
serde_json = "1"
structopt = "0.3"
tokio = { version = "1", features = ["full"] }
tokio-tungstenite = { version = "*", features = ["rustls-tls-webpki-roots"] }
tracing = "0.1"
tracing-subscriber = "0.3"
