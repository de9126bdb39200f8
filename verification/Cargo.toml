[package]
name = "monosplice"
version = "0.1.0"
edition = "2021"
publish = false

[dependencies]
clap = { version = "=4.6.7", features = ["derive"] }
clap_complete = "=4.6.11"
globset = "=0.4.21"
serde = { version = "=1.0.229", features = ["derive"] }
serde_json = "=1.0.154"
toml = { version = "=0.8.23", features = ["preserve_order"] }
