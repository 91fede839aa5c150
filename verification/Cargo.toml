[package]
name = "httpping"
version = "0.1.0"
edition = "2021"
publish = false

[dependencies]
anyhow = "1"
clap = { version = "4", features = ["derive"] }
rustls = "0.21"
tokio = { version = "1", features = ["macros", "net", "time", "io-util", "rt-multi-thread"] }
tokio-rustls = "0.24"
url = "2"
webpki-roots = "0.25"
