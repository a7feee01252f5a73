[package]
name = "matrix-oracle"
version = "0.1.0"
edition = "2021"
publish = false

[dependencies]
url = "=2.5.8"
reqwest = { version = "=0.12.28", default-features = false, features = ["json"] }
reqwest-middleware = "=0.4.2"
http-cache-reqwest = { version = "=0.16.0", default-features = false, features = ["manager-moka"] }
trust-dns-resolver = "=0.23.2"
serde = { version = "=1.0.229", features = ["derive"] }
