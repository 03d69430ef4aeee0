[package]
name = "joya"
version = "0.1.0"
edition = "2021"
publish = false

[dependencies]
anyhow = "1"
base64 = "=0.22.1"
clap = { version = "4", features = ["derive"] }
cpal = "0.18"
etcetera = "0.11"
flume = "0.12"
futures = "0.3"
image = { version = "=0.25.10", default-features = false, features = ["jpeg"] }
libwayshot = "0.9"
reqwest = { version = "0.12", default-features = false, features = ["json", "rustls-tls"] }
rubato = "3"
schemars = "1"
serde = { version = "1", features = ["derive"] }
serde_json = "=1.0.154"
tokio = { version = "1", features = ["macros", "net", "rt", "time"] }
tokio-tungstenite = { version = "0.28", features = ["rustls-tls-webpki-roots"] }
tracing = "0.1"
tracing-subscriber = { version = "0.3", features = ["env-filter"] }
uuid = { version = "=1.29.0", features = ["v5"] }
voice_activity_detector = "0.2"
yaml_serde = "0.10"
