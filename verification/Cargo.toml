[package]
name = "server_native"
version = "0.1.0"
edition = "2021"
publish = false

[dependencies]
axum = "*"
hyper = { version = "1", features = ["http1", "http2", "server"] }
hyper-util = { version = "0.1", features = ["tokio", "server-auto", "service", "http1", "http2"] }
tokio = { version = "1", features = ["rt-multi-thread", "net", "io-util", "sync", "time", "macros"] }
tokio-stream = "0.1"
tokio-rustls = { version = "0.26", default-features = false, features = ["ring", "logging", "tls12"] }
rustls-pemfile = "2"
rustls-native-certs = "0.8"
pkcs8 = { version = "0.10", features = ["pem", "encryption", "std"] }
parking_lot = "0.12"
socket2 = { version = "*", features = ["all"] }
quinn = { version = "0.11", default-features = false, features = ["runtime-tokio", "rustls-ring", "log"] }
h3 = "*"
h3-quinn = "*"
h3-axum = "*"
