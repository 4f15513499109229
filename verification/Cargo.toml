[package]
name = "capture_control"
version = "0.1.0"
edition = "2021"
publish = false

[dependencies]
anyhow = "1"
async-broadcast = "=0.7.2"
async-channel = "=2.5.0"
chrono = "=0.4.45"
futures-util = { version = "0.3", features = ["sink"] }
log = "0.4"
native_db = "=0.8.2"
native_model = "=0.4.20"
nokhwa = { version = "=0.10.11", features = ["input-native", "output-threaded"] }
once_cell = "1"
ort = "=2.0.0-rc.15"
prost = "=0.14.4"
serde = { version = "1", features = ["derive"] }
simplelog = "0.12"
tokio = { version = "1", features = ["full"] }
tokio-tungstenite = "=0.30.0"
tungstenite = "=0.30.0"
