[package]
name = "baglama2"
version = "0.1.0"
edition = "2021"
publish = false

[dependencies]
serde_json = "=1.0.151"
anyhow = "=1.0.104"
chrono = "=0.4.45"
futures = "=0.3.34"
mysql_async = { version = "*", default-features = false, features = ["minimal"] }
reqwest = { version = "=0.12.28", default-features = false, features = ["rustls-tls"] }
rusqlite = { version = "=0.40.2", features = ["bundled"] }
tokio = { version = "=1.53.2", features = ["macros", "rt-multi-thread", "time"] }
