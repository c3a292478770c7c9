[package]
name = "gas_tracker"
version = "0.1.0"
edition = "2021"
publish = false

[dependencies]
actix-web = "*"
actix-rt = "*"
chrono = "*"
dotenv = "*"
env_logger = "*"
listenfd = "*"
log = "*"
reqwest = { version = "*", default-features = false, features = ["json"] }
serde = { version = "*", features = ["derive"] }
