[package]
name = "socks_weather"
version = "0.1.0"
edition = "2021"
publish = false

[dependencies]
teloxide = { version = "=0.12.2", default-features = false, features = ["ctrlc_handler", "rustls"] }
takecell = "=0.1.1"
dptree = "=0.3.0"
reqwest = { version = "=0.11.27", default-features = false, features = ["json", "rustls-tls"] }
tokio = { version = "=1.54.1", features = ["macros", "rt-multi-thread"] }
serde = { version = "=1.0.229", features = ["derive"] }
polling = "=3.11.0"
log = "=0.4.35"
pretty_env_logger = "=0.5.0"
