[package]
name = "fracture"
version = "0.1.0"
edition = "2021"
publish = false

[dependencies]
httparse = "1"
rand = "0.9"
tokio = { version = "1", features = ["full"] }
tracing = "0.1"
tracing-subscriber = "0.3"
tracing-appender = "0.2"
chrono = "0.4"
clap = { version = "4", features = ["derive"] }
hickory-resolver = { version = "0.24", features = ["tokio-runtime", "dns-over-https-rustls", "dns-over-quic", "dns-over-rustls"] }
winreg = "*"
