[package]
name = "tfgrid_sdk_rust"
version = "0.1.0"
edition = "2021"
publish = false

[dependencies]
serde = { version = "1", features = ["derive"] }
serde_json = "1"
md5 = "0.7"
hex = "0.4"
ipnet = "2"
url = "2"
thiserror = "1"
tokio = { version = "1", features = ["rt-multi-thread", "macros", "net", "sync", "time"] }
reqwest = { version = "0.12", default-features = false, features = ["json", "rustls-tls"] }
tokio-tungstenite = { version = "0.24", features = ["rustls-tls-webpki-roots"] }
futures-util = { version = "0.3", features = ["sink"] }
prost = "0.13"
base64 = "0.22"
rand = "0.8"
sha2 = "0.10"
hmac = "0.12"
pbkdf2 = "0.12"
blake2 = "0.10"
aes-gcm = "0.10"
secp256k1 = "0.29"
