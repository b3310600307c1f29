[package]
name = "mock_server"
version = "0.1.0"
edition = "2021"
publish = false

[dependencies]
regex = "*"
actix-web = "*"
actix-files = "*"
actix-multipart = "*"
tokio = { version = "*", features = ["macros", "rt-multi-thread", "fs", "io-util"] }
futures = "*"
clap = { version = "*", features = ["derive"] }
serde = { version = "*", features = ["derive"] }
serde_json = "*"
serde_yaml = "*"
anyhow = "*"
log = "*"
pretty_env_logger = "*"
colored = "*"
lazy_static = "*"
syntect = { version = "*", default-features = false, features = ["default-fancy"] }
