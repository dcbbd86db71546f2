[package]
name = "httpie_oapi"
version = "0.1.0"
edition = "2021"
publish = false

[dependencies]
anyhow = "1"
clap = { version = "4", features = ["derive"] }
dirs = "*"
openapiv3 = "2"
reqwest = { version = "0.12", default-features = false, features = ["blocking", "default-tls"] }
serde = { version = "1", features = ["derive"] }
serde_json = "1"
shell-words = "1"
toml = "*"
tracing = "0.1"
tracing-appender = "0.2"
tracing-subscriber = { version = "0.3", features = ["env-filter"] }
url = "2"
