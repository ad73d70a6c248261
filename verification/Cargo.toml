[package]
name = "single_page_web_server_rs"
version = "0.1.0"
edition = "2021"
publish = false

[dependencies]
async-stream = "0.3"
clap = { version = "4", features = ["derive", "env"] }
flate2 = "1"
hyper = { version = "0.14", features = ["full"] }
md5 = "0.7"
opentelemetry = { version = "0.21", features = ["metrics"] }
opentelemetry-prometheus = "0.14"
opentelemetry_sdk = { version = "0.21", features = ["metrics"] }
prometheus = "0.13"
rcgen = "0.11"
rustls = "0.21"
time = "0.3"
tokio = { version = "1", features = ["full"] }
tokio-rustls = "0.24"
tracing = "0.1"
tracing-subscriber = "0.3"
