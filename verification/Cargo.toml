[package]
name = "oppai"
version = "0.1.0"
edition = "2021"
publish = false

[dependencies]
uuid = { version = "=1.29.0", features = ["v4", "v5", "serde"] }
num_cpus = "=1.17.0"
clap = "=2.34.0"
rand = "=0.8.8"
sqlx = { version = "=0.8.6", default-features = false, features = ["runtime-tokio", "postgres", "uuid", "derive"] }
tokio = { version = "=1.54.1", features = ["rt-multi-thread", "macros", "net", "sync"] }
tokio-tungstenite = "=0.30.0"
futures = "=0.3.34"
futures-util = "=0.3.34"
serde = { version = "=1.0.229", features = ["derive"] }
serde_json = "=1.0.154"
anyhow = "=1.0.104"
derive_more = { version = "=1.0.0", features = ["from", "into"] }
