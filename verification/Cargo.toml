[package]
name = "alibabacloud"
version = "0.1.0"
edition = "2021"
publish = false

[dependencies]
base64 = "=0.23.1"
fastrand = "=2.5.0"
hmac = "=0.13.0"
http = "=1.5.0"
httpdate = "=1.0.3"
reqwest = { version = "=0.12.28", default-features = false, features = ["rustls-tls"] }
serde = { version = "=1.0.229", features = ["derive"] }
serde_json = "=1.0.151"
serde_path_to_error = "=0.1.20"
sha1 = "=0.11.0"
thiserror = "=2.0.21"
tokio = { version = "=1.53.2", features = ["time"] }
ureq = "=3.4.2"
uuid = { version = "=1.27.0", features = ["v4"] }
