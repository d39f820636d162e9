[package]
name = "tolerable"
version = "0.1.0"
edition = "2021"
publish = false

[dependencies]
actix-web = { version = "*", features = ["rustls-0_23"] }
actix-web-prom = "*"
anyhow = "*"
awc = "*"
base64 = "*"
config = "*"
lazy_static = "*"
log = "*"
pretty_env_logger = "*"
prometheus = "*"
rustls = "*"
rustls-pemfile = "*"
serde = { version = "*", features = ["derive"] }
serde_json = "*"
