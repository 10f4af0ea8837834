[package]
name = "spuri_io"
version = "0.1.0"
edition = "2021"
publish = false

[dependencies]
ammonia = "=4.2.4"
base64 = "=0.23.1"
chrono = "=0.4.45"
env_logger = "=0.11.11"
image = { version = "=0.25.10", default-features = false, features = ["png"] }
log = "=0.4.34"
notify = "=8.2.0"
openssl = "=0.10.81"
pulldown-cmark = "=0.13.5"
regex = "=1.13.1"
reqwest = { version = "=0.12.28", default-features = false, features = ["blocking", "rustls-tls"] }
rocket = "=0.5.2"
serde_urlencoded = "=0.7.1"
url = "=2.5.8"
