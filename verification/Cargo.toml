[package]
name = "ton_api_utility"
version = "0.1.0"
edition = "2021"
publish = false

[dependencies]
anyhow = "=1.0.104"
argh = "=0.1.19"
argon2 = "=0.4.1"
base64 = "=0.13.1"
bigdecimal = { version = "=0.3.1", features = ["serde"] }
chacha20poly1305 = "=0.9.1"
rand_core = { version = "=0.6.4", features = ["getrandom"] }
serde = { version = "=1.0.229", features = ["derive"] }
serde_json = "=1.0.154"
sqlx = { version = "=0.9.0", default-features = false, features = ["postgres", "runtime-tokio"] }
tokio = { version = "=1.54.1", features = ["rt-multi-thread", "macros"] }
uuid = { version = "=1.29.0", features = ["serde"] }
