[package]
name = "nickmass_com"
version = "0.1.0"
edition = "2021"
publish = false

[dependencies]
ring = "=0.17.14"
base64 = "=0.13.1"
url = "=2.5.8"
tokio = { version = "=1.54.1", features = ["rt-multi-thread", "net", "time", "signal", "macros"] }
axum = "=0.7.9"
axum-extra = { version = "=0.9.6", features = ["cookie"] }
deadpool-redis = "=0.14.0"
time = "=0.3.55"
tracing = "=0.1.44"
tracing-subscriber = "=0.3.23"
serde = { version = "=1.0.229", features = ["derive"] }
reqwest = { version = "=0.12.28", default-features = false, features = ["json", "rustls-tls"] }
jwt = "=0.16.0"
structopt = "=0.3.26"
toml = "=0.5.11"
chrono = "=0.4.45"
pulldown-cmark = { version = "0.9", default-features = false }
