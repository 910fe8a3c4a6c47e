[package]
name = "typscord"
version = "0.1.0"
edition = "2021"
publish = false

[dependencies]
anyhow = "=1.0.104"
axum = "=0.8.9"
bytemuck = "=1.25.2"
bytes = "=1.12.1"
ecow = "0.2"
ed25519-dalek = "=2.2.0"
futures-util = "=0.3.34"
hex = "=0.4.3"
image = { version = "=0.25.10", default-features = false, features = ["webp"] }
rustls = "=0.23.46"
serde_json = "=1.0.154"
time = "=0.3.55"
tokio = { version = "=1.54.1", features = ["rt", "net", "time", "process", "io-util"] }
tracing = "=0.1.44"
tracing-subscriber = { version = "=0.3.23", features = ["env-filter", "fmt"] }
ttf-parser = "=0.25.1"
twilight-http = { version = "=0.17.1", default-features = false, features = ["rustls-webpki-roots"] }
twilight-model = "=0.17.1"
typst = "0.14"
typst-assets = { version = "0.14", features = ["fonts"] }
typst-render = "0.14"
