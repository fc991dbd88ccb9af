[package]
name = "holdfast"
version = "0.1.0"
edition = "2021"
publish = false

[dependencies]
anyhow = "=1.0.104"
axum = "=0.8.9"
base64 = "=0.22.1"
dirs = "=5.0.1"
ed25519-dalek = "=2.2.0"
rand = "=0.8.8"
rustls = { version = "0.23", default-features = false, features = ["std"] }
rustls-pemfile = "2"
rustls-pki-types = { version = "1", features = ["std"] }
serde = { version = "=1.0.229", features = ["derive"] }
serde_json = "=1.0.154"
sha2 = "=0.10.9"
ssh-key = { version = "=0.6.7", features = ["ed25519", "p256", "rsa", "std"] }
tokio = { version = "=1.54.1", features = ["fs", "io-util", "macros", "net", "rt-multi-thread", "signal", "sync", "time"] }
tower-http = { version = "=0.6.11", features = ["fs"] }
zeroize = "=1.9.1"

[dev-dependencies]
p256 = { version = "=0.13.2", features = ["ecdsa"] }
