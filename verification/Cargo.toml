[package]
name = "web_scrap_cli"
version = "0.1.0"
edition = "2021"
publish = false

[dependencies]
scraper = "*"
select = "*"
url = "*"
rusqlite = { version = "*", features = ["bundled"] }
clap = { version = "*", features = ["derive"] }
yaml-rust = "*"
reqwest = { version = "*", default-features = false, features = ["cookies", "rustls-tls"] }
tokio = { version = "*", features = ["rt-multi-thread", "macros"] }
futures = "*"
env_logger = "*"
log = "*"

[dev-dependencies]
csv = "*"
