[package]
name = "road_balancer"
version = "0.1.0"
edition = "2021"

[dependencies]
http_header = "*"
log = "*"
serde = { version = "*", features = ["derive"] }
simple_logger = "*"
toml = "*"
