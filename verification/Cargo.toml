[package]
name = "xfinity_cli"
version = "0.1.0"
edition = "2021"
publish = false

[dependencies]
clap = { version = "=4.6.7", features = ["derive", "env"] }
clap_complete = "=4.6.11"
flate2 = "=1.1.10"
tar = "=0.4.46"
reqwest = { version = "=0.12.28", default-features = false, features = ["blocking", "json", "rustls-tls"] }
serde = { version = "=1.0.229", features = ["derive"] }
serde_json = "=1.0.154"
keyring = { version = "3", features = ["linux-native", "apple-native", "windows-native"] }
