[package]
name = "ami_client"
version = "0.1.0"
edition = "2021"
publish = false

[dependencies]
clap = "*"
dirs = "*"
serde = { version = "*", features = ["derive"] }
serde_json = "*"
tungstenite = "*"
url = "*"
