[package]
name = "etrade"
version = "0.1.0"
edition = "2021"
publish = false

[dependencies]
base64 = "0.13"
chrono = "0.4"
chrono-tz = "0.8"
hmac = "0.12"
hyper = { version = "0.14", features = ["client", "http1", "tcp"] }
sha1 = "0.10"
tokio = { version = "1", features = ["rt", "macros"] }

[dev-dependencies]
oauth1-request = "0.3"
serde_json = "1"
serde_urlencoded = "0.7"
