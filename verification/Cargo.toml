[package]
name = "encodec_api"
version = "0.1.0"
edition = "2021"
publish = false

[dependencies]
anyhow = "=1.0.104"
async-trait = "=0.1.92"
base64 = "=0.22.1"
bytes = "=1.12.1"
clap = { version = "=4.6.7", features = ["derive", "env"] }
dotenvy = "=0.15.7"
encodec-rs = { version = "=0.1.4", features = ["onnx"] }
futures-util = "=0.3.34"
http = "=1.5.0"
hyper = "=1.12.0"
hyper-util = { version = "=0.1.21", features = ["tokio"] }
image = { version = "=0.25.10", default-features = false, features = ["png"] }
multer = "=3.1.0"
ndarray = "=0.17.2"
serde = { version = "=1.0.229", features = ["derive"] }
serde_json = "=1.0.154"
sha2 = "=0.10.9"
thiserror = "=2.0.21"
tokio = { version = "=1.54.1", features = ["full"] }
tokio-tungstenite = "=0.26.2"
tracing = "=0.1.44"
tracing-subscriber = { version = "=0.3.23", features = ["env-filter"] }
url = "=2.5.8"
uuid = { version = "=1.29.0", features = ["v4"] }
