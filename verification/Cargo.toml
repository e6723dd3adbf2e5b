[package]
name = "oj"
version = "0.1.0"
edition = "2021"
publish = false

[dependencies]
actix-web = "4"
actix-cors = "*"
chrono = "0.4"
clap = "4"
crossbeam = "0.8"
env_logger = "*"
lazy_static = "1"
log = "0.4"
serde = { version = "1", features = ["derive"] }
serde_derive = "1"
serde_json = "1"
time = "0.3"
wait-timeout = "0.2"
