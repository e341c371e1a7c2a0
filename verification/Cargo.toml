[package]
name = "rustaman"
version = "0.1.0"
edition = "2021"
publish = false

[dependencies]
url = "2"
serde_yaml = "0.9"
serde_json = "1"
serde = { version = "1", features = ["derive"] }
handlebars = "4"
clap = { version = "4", features = ["derive"] }
dirs-next = "2"
log = "0.4"
pretty_env_logger = "0.5"
reqwest = { version = "0.11", default-features = false, features = ["blocking", "rustls-tls"] }

[dev-dependencies]
regex = "1"
