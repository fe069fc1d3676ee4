[package]
name = "cloak"
version = "0.1.0"
edition = "2021"
publish = false

[dependencies]
anyhow = "1"
argon2 = "0.5"
axum = "0.8"
base64 = "0.22"
bytes = "1"
chacha20poly1305 = "0.10"
clap = { version = "4", features = ["derive"] }
directories = "5"
http-body-util = "0.1"
hyper = { version = "1", features = ["full"] }
hyper-util = { version = "0.1", features = ["full"] }
keyring = "3"
libc = "0.2"
rand = "0.8"
rcgen = "0.14"
reqwest = { version = "0.12", default-features = false, features = ["rustls-tls", "stream", "json"] }
rpassword = "7"
rustls = "0.23"
serde = { version = "1", features = ["derive"] }
serde_json = "1"
tokio = { version = "1", features = ["full"] }
tokio-rustls = "0.26"
zeroize = "1"
