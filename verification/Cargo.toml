[package]
name = "dig_node_service"
version = "0.1.0"
edition = "2021"
publish = false

[dependencies]
axum = { version = "=0.7.9", features = ["ws"] }
axum-server = { version = "=0.7.3", features = ["tls-rustls"] }
clap = { version = "=4.6.7", features = ["derive"] }
dig-cert = "=0.1.3"
dig-constants = "=0.13.1"
libc = "=0.2.191"
reqwest = { version = "=0.12.28", default-features = false, features = ["json"] }
rustls = { version = "=0.23.46", default-features = false, features = ["ring", "std", "tls12"] }
serde = { version = "=1.0.229", features = ["derive"] }
serde_json = "=1.0.154"
service-manager = "=0.7.1"
time = "=0.3.55"
tokio = { version = "=1.54.1", features = ["full"] }
tower-http = { version = "=0.6.11", features = ["cors"] }
tracing = "=0.1.44"
unicode-width = "=0.2.3"
