[package]
name = "zippyst"
version = "0.1.0"
edition = "2021"
publish = false

[dependencies]
scraper = "*"
url = "2"
tokio = { version = "1", features = ["macros", "rt-multi-thread"] }
hyper = { version = "0.14", features = ["client", "http1", "tcp"] }
hyper-tls = "0.5"
http = "0.2"
