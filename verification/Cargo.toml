[package]
name = "crash_server"
version = "0.1.0"
edition = "2021"
publish = false

[dependencies]
actix = "=0.13.5"
actix-cors = "=0.7.2"
actix-web = { version = "=4.18.1", default-features = false, features = ["macros", "ws"] }
actix-web-actors = "=4.3.1"
chrono = "=0.4.45"
derive_more = "=0.99.20"
dotenv = "=0.15.0"
env_logger = "0.11"
flatbuffers = "=24.12.23"
hex = "=0.4.3"
hmac = "=0.12.1"
jsonwebtoken = "=9.3.1"
log = "0.4"
map-range = "=0.1.2"
rand = "=0.8.8"
serde = { version = "1", features = ["derive"] }
sha2 = "=0.10.9"
uuid = { version = "=1.29.0", features = ["v4"] }
