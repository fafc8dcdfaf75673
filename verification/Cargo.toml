[package]
name = "buzz_core"
version = "0.1.0"
edition = "2021"
publish = false

[dependencies]
atomic-write-file = "=0.3.1"
base64 = "=0.22.1"
chrono = "=0.4.45"
libc = "=0.2.191"
nostr = "=0.44.8"
serde = { version = "=1.0.229", features = ["derive"] }
serde_json = "=1.0.154"
sha2 = "=0.10.9"
tempfile = "=3.27.0"
thiserror = "=2.0.21"
tokio = { version = "=1.54.1", features = ["sync", "time", "rt", "macros"] }
tracing = "=0.1.44"
uuid = { version = "=1.29.0", features = ["v4"] }
