[package]
name = "miyu"
version = "0.1.0"
edition = "2021"
publish = false

[dependencies]
anyhow = "1"
base64 = "0.22"
crossterm = "0.28"
directories = "5"
html2text = "0.12"
reqwest = { version = "0.12", default-features = false, features = ["json", "rustls-tls"] }
serde = { version = "1", features = ["derive"] }
serde_json = "1"
tiktoken-rs = "*"
tokio = { version = "1", features = ["macros", "rt-multi-thread", "process", "time", "io-util"] }
