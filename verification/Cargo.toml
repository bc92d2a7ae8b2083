[package]
name = "tunnel_relay"
version = "0.1.0"
edition = "2021"
publish = false

[dependencies]
anyhow = "1"
fastwebsockets = { version = "0.4", features = ["upgrade"] }
hyper = { version = "0.14", features = ["full"] }
hyper-tls = "0.5"
lazy_static = "1"
mime_guess = "2"
rand = "0.8"
serde = { version = "1", features = ["derive"] }
serde_json = "1"
sqlx = { version = "0.7", default-features = false, features = ["postgres", "runtime-tokio", "uuid"] }
tokio = { version = "1", features = ["full"] }
