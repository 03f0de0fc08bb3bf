[package]
name = "grok"
version = "0.1.0"
edition = "2021"
publish = false

[dependencies]
chrono = "0.4"
chrono-english = "0.1"
clap = "2"
env_logger = "0.8"
futures = "0.3"
log = "0.4"
rusoto_core = { version = "0.48", default-features = false, features = ["rustls"] }
rusoto_logs = { version = "0.48", default-features = false, features = ["rustls"] }
serde = { version = "1", features = ["derive"] }
serde_json = "1"
termion = "1.5"
tokio = { version = "1", features = ["full"] }
