[package]
name = "ruston_mail"
version = "0.1.0"
edition = "2021"
publish = false

[dependencies]
url = "2"
html5ever = "*"
serde = { version = "1", features = ["derive"] }
serde_json = "1"
tokio = { version = "1", features = ["rt-multi-thread", "sync", "time"] }
futures = "0.3"
directories = "*"
chrono = "0.4"
secrecy = "*"
zeroize = "1"
tracing-subscriber = "0.3"
