[package]
name = "guardpetal"
version = "0.1.0"
edition = "2021"
publish = false

[dependencies]
anyhow = "=1.0.104"
argon2 = "=0.5.3"
base64 = "=0.22.1"
chacha20poly1305 = "=0.10.1"
chrono = "=0.4.45"
comfy-table = "=7.2.2"
dirs = "=5.0.1"
flate2 = "=1.1.10"
hex = "=0.4.3"
hmac = "=0.12.1"
rand_core = { version = "=0.6.4", features = ["getrandom"] }
rpassword = "=7.5.4"
rusqlite = { version = "=0.31.0", features = ["bundled"] }
serde = { version = "=1.0.229", features = ["derive"] }
serde_json = { version = "=1.0.154", features = ["preserve_order"] }
sha2 = "=0.10.9"
toml = "=0.8.23"
uuid = "=1.29.0"
zeroize = "=1.9.1"
