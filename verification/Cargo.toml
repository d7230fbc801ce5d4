[package]
name = "shapeshifter"
version = "0.1.0"
edition = "2021"
publish = false

[dependencies]
anyhow = "1"
base64 = "0.22"
chrono = "0.4"
cli-clipboard = "*"
crossterm = "*"
dirs = "*"
ratatui = "*"
reqwest = { version = "0.12", default-features = false, features = ["blocking", "json", "rustls-tls"] }
serde = { version = "1", features = ["derive"] }
serde_json = "1"
sha2 = "0.10"
tempfile = "3"
thiserror = "*"
toml = "*"
url = "2"
uuid = { version = "1", features = ["v4"] }
webbrowser = "*"
