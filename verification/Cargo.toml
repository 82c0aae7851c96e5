[package]
name = "supervisor"
version = "0.1.0"
edition = "2021"
publish = false

[dependencies]
crc-any = "=3.1.0"
roxmltree = "=0.21.2"
regex = "=1.13.1"
macaddr = "=1.0.1"
ansi-parser = "=0.9.1"
bitvec = "=1.1.1"
itertools = "=0.15.0"
base64 = "=0.23.1"
bincode = "=1.3.3"
ipnet = "=2.12.2"
chrono = "=0.4.45"
serde-pickle = "=1.2.0"
warp = { version = "=0.4.3", features = ["server", "websocket"] }
tokio = { version = "=1.54.1", features = ["full"] }
tokio-util = { version = "=0.7.20", features = ["codec", "net"] }
tokio-serde = { version = "=0.9.0", features = ["json"] }
futures = "=0.3.34"
bytes = "=1.12.1"
serde = { version = "=1.0.229", features = ["derive"] }
serde_json = "=1.0.154"
anyhow = "=1.0.104"
log = "=0.4.35"
env_logger = "=0.11.11"
mavlink = "=0.21.0"
uuid = { version = "=1.29.0", features = ["v4", "serde"] }
