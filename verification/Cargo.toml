[package]
name = "tokyo_server"
version = "0.1.0"
edition = "2021"
publish = false

[dependencies]
actix = "=0.13.5"
actix-files = "=0.6.10"
actix-web = { version = "=4.18.1", default-features = false, features = ["macros", "ws"] }
actix-web-actors = "=4.3.1"
env_logger = "=0.11.11"
futures = "=0.3.34"
lazy_static = "=1.5.1"
listenfd = "=1.0.2"
log = "=0.4.34"
rand = "=0.8.8"
ratelimit_meter = "=5.0.0"
redis = "=1.8.0"
serde = { version = "=1.0.229", features = ["derive"] }
serde_derive = "=1.0.229"
serde_json = "=1.0.154"
spin_sleep = "=1.3.3"
toml = "=0.8.23"
