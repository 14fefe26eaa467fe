[package]
name = "probe_server"
version = "3.0.0"
edition = "2021"
publish = false

[dependencies]
actix = "=0.13.5"
actix-web = { version = "=4.18.1", default-features = false }
anyhow = "=1.0.104"
clap = "=2.34.0"
env_logger = { version = "=0.11.11", default-features = false }
log = "=0.4.34"
serde = { version = "=1.0.229", features = ["derive"] }
serde_derive = "=1.0.229"
serde_json = "=1.0.154"
sqlx = { version = "=0.9.0", default-features = false, features = ["sqlite", "runtime-tokio"] }
takecell = "=0.1.1"
teloxide = { version = "=0.17.0", default-features = false, features = ["rustls"] }
tokio = { version = "=1.54.1", features = ["sync", "time", "rt"] }
tokio-stream = "=0.1.19"
toml = "=1.1.8"
