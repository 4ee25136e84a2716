[package]
name = "plte_cli"
version = "0.1.0"
edition = "2021"
publish = false

[dependencies]
select = "=0.5.0"
serde = { version = "=1.0.229", features = ["derive"] }
serde_json = "=1.0.154"
csv = "=1.4.0"
bson = "=2.15.0"
mongodb = { version = "=2.8.2", features = ["tokio-sync"] }
reqwest = { version = "=0.10.10", default-features = false, features = ["rustls-tls"] }
tokio = { version = "=0.2.25", features = ["macros", "rt-threaded"] }
