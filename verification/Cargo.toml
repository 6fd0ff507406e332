[package]
name = "secret-hub-core"
version = "0.1.0"
edition = "2021"
publish = false

[dependencies]
argon2 = "=0.5.3"
base64 = "=0.22.1"
chacha20poly1305 = "=0.10.1"
getrandom = "=0.3.4"
hmac = "=0.12.1"
sha1 = "=0.10.7"
data-encoding = "=2.11.1"
uuid = { version = "=1.29.0", features = ["v4", "serde"] }
chrono = { version = "=0.4.45", features = ["serde"] }
zeroize = "=1.9.1"
serde = { version = "=1.0.229", features = ["derive"] }
serde_json = "=1.0.154"
thiserror = "=2.0.21"
clap = { version = "=4.6.7", features = ["derive"] }
anyhow = "=1.0.104"
rpassword = "=7.5.4"
arboard = { version = "=3.7.0", default-features = false }
dirs = "=6.0.0"
