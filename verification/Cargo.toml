[package]
name = "msgrelay"
version = "0.1.0"
edition = "2021"

[dependencies]
anyhow = "1"
chacha20poly1305 = "0.10"
chrono = "0.4"
ed25519-dalek = { version = "2", features = ["rand_core"] }
rand = "0.8"
tokio = { version = "1", features = ["full"] }
uuid = { version = "1", features = ["v4"] }
x25519-dalek = { version = "2", features = ["static_secrets", "getrandom"] }

[dev-dependencies]
hex = "0.4"
serde_json = "1"
