[package]
name = "capmeter"
version = "0.1.0"
edition = "2021"
publish = false

[dependencies]
crc = "3"
bytes = "1"
heapless = "0.9"
postcard = { version = "1", features = ["use-std"] }
serde = { version = "1", features = ["derive"] }
serde_json = "1"
tokio = { version = "1", features = ["full"] }
tokio-util = { version = "0.7", features = ["codec"] }
tokio-serial = { version = "5", default-features = false }
futures-util = { version = "0.3", features = ["sink"] }
thiserror = "2"
derive_more = { version = "2", features = ["debug"] }
async-stream = "0.3"
pin-project-lite = "0.2"
nusb = "*"
clap = { version = "4", features = ["derive"] }
dialoguer = "0.11"
dotenvy = "0.15"
tracing = "0.1"
tracing-subscriber = "0.3"
anyhow = "1"
linfa = "0.7"
linfa-linear = "0.7"
ndarray = "0.15"
