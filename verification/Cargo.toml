[package]
name = "traffic_sim"
version = "0.1.0"
edition = "2021"
publish = false

[dependencies]
bincode = "1"
rand = { version = "=0.8.8", default-features = false }
rand_xorshift = "=0.3.0"
serde = { version = "=1.0.229", features = ["derive"] }
serde_json = "=1.0.154"
