[package]
name = "polaris"
version = "0.1.0"
edition = "2021"
publish = false

[dependencies]
anyhow = "=1.0.104"
bincode = "=1.3.3"
chrono = { version = "=0.4.45", features = ["serde"] }
clap = { version = "=4.6.7", features = ["derive"] }
serde = { version = "=1.0.229", features = ["derive"] }
serde_json = "=1.0.151"
shellwords = "=1.1.0"
ureq = { version = "=3.4.2", default-features = false, features = ["json"] }
urlencoding = "=2.1.3"
uuid = { version = "=1.27.0", features = ["serde"] }
