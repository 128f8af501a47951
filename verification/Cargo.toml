[package]
name = "pollus"
version = "0.1.0"
edition = "2021"
publish = false

[dependencies]
chrono = { version = "=0.4.45", default-features = false, features = ["clock", "std", "serde"] }
cookie = "=0.18.2"
time = "=0.3.55"
itertools = "=0.10.5"
serde = { version = "=1.0.229", features = ["derive"] }
jsonwebtoken = "=8.3.0"
gotham = "=0.7.4"
gotham_derive = "=0.7.1"
gotham_restful = { version = "=0.8.5", default-features = false, features = ["auth", "cors", "without-openapi"] }
sqlx = { version = "=0.8.6", default-features = false, features = ["postgres", "runtime-tokio", "chrono"] }
tokio = { version = "=1.54.1", features = ["rt-multi-thread"] }
futures-util = "=0.3.34"
telegram-bot = "=0.8.0"
refinery = { version = "=0.8.16", features = ["postgres"] }
lazy_static = "=1.5.1"
log = "=0.4.35"
pretty_env_logger = "=0.4.0"
dotenv = "=0.15.0"
mime = "=0.3.17"
