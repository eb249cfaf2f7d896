[package]
name = "kitchen"
version = "0.1.0"
edition = "2021"
publish = false

[dependencies]
bollard = "*"
bytes = "*"
clap = { version = "*", features = ["derive"] }
crossterm = "*"
eyre = "*"
flate2 = "*"
futures-util = "*"
reqwest = { version = "0.12", default-features = false, features = ["rustls-tls"] }
serde = { version = "*", features = ["derive"] }
serde_json = "*"
tar = "*"
tokio = { version = "*", features = ["full"] }
toml = "*"
