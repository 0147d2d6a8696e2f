[package]
name = "lol_assistant"
version = "0.1.0"
edition = "2021"
publish = false

[dependencies]
base64 = "=0.22.1"
serde = { version = "=1.0.229", features = ["derive"] }
serde_json = "=1.0.154"
percent-encoding = "=2.3.2"
tokio = { version = "=1.54.1", features = ["rt-multi-thread", "net", "time", "macros", "sync"] }
reqwest = { version = "=0.13.5", default-features = false, features = ["blocking", "json", "native-tls"] }
tokio-tungstenite = { version = "=0.30.0", features = ["native-tls"] }
futures-util = "=0.3.34"
native-tls = "=0.2.18"
rayon = "=1.12.0"
sysinfo = "=0.40.1"
rdev = "*"
