[package]
name = "biscuits"
version = "0.1.0"
edition = "2021"
publish = false

[dependencies]
regex = "=1.13.1"
serde = { version = "=1.0.229", features = ["derive"] }
serde_json = "=1.0.154"
anyhow = "=1.0.104"
crossterm = "=0.29.0"
libc = "=0.2.191"
reqwest = { version = "0.12", default-features = false, features = ["blocking", "json", "rustls-tls"] }
dirs = "6"
glob = "0.3"
rpassword = "7"
urlencoding = "2"
