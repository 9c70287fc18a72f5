[package]
name = "cloud_sync"
version = "0.1.0"
edition = "2021"
publish = false

[dependencies]
sha2 = "=0.10.9"
sha1 = "=0.10.7"
md5 = "=0.7.0"
hmac = "=0.12.1"
base64 = "=0.22.1"
aes-gcm = "=0.10.3"
rand = "=0.8.8"
zeroize = "=1.9.1"
quick-xml = "=0.31.0"
httpdate = "=1.0.3"
chrono = "=0.4.45"
reqwest = { version = "=0.12.28", default-features = false, features = ["json", "stream", "multipart"] }
serde = { version = "=1.0.229", features = ["derive"] }
serde_json = "=1.0.154"
toml = "=0.8.23"
tokio = { version = "=1.54.1", features = ["full"] }
tokio-util = { version = "=0.7.20", features = ["io", "compat"] }
futures-util = "=0.3.34"
notify = "=6.1.1"
tracing = "=0.1.44"
tracing-subscriber = { version = "=0.3.23", features = ["env-filter"] }
async-trait = "=0.1.92"
mega = "=0.8.0"
ssh2 = "=0.9.6"
rust-s3 = "*"
