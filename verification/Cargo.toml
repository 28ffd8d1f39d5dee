[package]
name = "cyberorto"
version = "0.1.0"
edition = "2021"
publish = false

[dependencies]
serialmessage = "*"
embedded-storage = "0.3"
postcard = { version = "1", features = ["use-std"] }
serde = { version = "1", features = ["derive"] }
serde_json = "1"
tokio = { version = "1", features = ["full"] }
tokio-serial = { version = "5", default-features = false }
rocket = { version = "0.5", features = ["json"] }
clap = { version = "4", features = ["derive"] }
log = "0.4"
env_logger = "*"
rand = "0.9"
futures = "0.3"
embassy-time = { version = "*", features = ["std"] }
embassy-futures = "*"
micromath = "*"
pid = "*"
