[package]
name = "browser_select"
version = "0.1.0"
edition = "2021"
publish = false

[dependencies]
dirs = "*"
fork = "*"
serde = { version = "*", features = ["derive"] }
serde_json = "*"
url = "*"
walkdir = "*"
