[package]
name = "utcp_transports"
version = "0.1.0"
edition = "2021"
publish = false

[dependencies]
serde_json = "=1.0.154"
base64 = "=0.21.7"
reqwest = { version = "=0.11.27", default-features = false, features = ["json", "stream"] }
tokio = { version = "=1.54.1", features = ["full"] }
futures = "=0.3.34"
tokio-tungstenite = "=0.20.1"
eventsource-stream = "=0.2.3"
bytes = "=1.12.1"
anyhow = "=1.0.104"
async-trait = "=0.1.92"
once_cell = "=1.21.4"
tonic = { version = "=0.10.2", default-features = false }
webrtc = "0.9"
