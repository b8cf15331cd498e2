[package]
name = "mcmm"
version = "0.1.0"
edition = "2021"
publish = false

[dependencies]
anyhow = "1"
basic-toml = "0.1"
fs2 = "0.4"
futures-util = "0.3"
indicatif = "*"
regex = "1"
reqwest = { version = "0.12", default-features = false, features = ["json", "stream", "rustls-tls"] }
serde = { version = "1", features = ["derive"] }
serde_derive = "1"
tabled = "*"
tokio = { version = "1", features = ["full"] }
url = "2"
urlencoding = "2"
walkdir = "2"
