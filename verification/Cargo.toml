[package]
name = "maprando_web"
version = "0.1.0"
edition = "2021"
publish = false

[dependencies]
actix-easy-multipart = "3"
actix-files = "0.6"
actix-web = { version = "4", default-features = false, features = ["macros", "compress-brotli", "compress-gzip", "cookies", "http2"] }
anyhow = "1"
askama = "0.12"
clap = { version = "4", features = ["derive"] }
env_logger = "0.11"
hashbrown = "0.14"
log = "0.4"
rand = "0.8"
serde = { version = "1", features = ["derive"] }
serde_json = "1"
