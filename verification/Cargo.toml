[package]
name = "httpz"
version = "0.1.0"
edition = "2021"
publish = false

[dependencies]
http = "0.2"
cookie = { version = "0.17", features = ["percent-encode"] }
form_urlencoded = "1"
percent-encoding = "2"
sha1 = "0.10"
base64 = "0.21"
async-tungstenite = { version = "0.22", features = ["tokio-runtime"] }
tokio = { version = "1", features = ["rt", "macros"] }
hyper = { version = "0.14", features = ["server", "http1", "stream"] }
futures = "0.3"
thiserror = "1"
axum = "0.6"
lambda_http = "0.8"
vercel_runtime = "1"
worker = "0.0.18"
actix-web = { version = "4", default-features = false, features = ["macros"] }
