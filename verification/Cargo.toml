[package]
name = "quicp"
version = "0.1.0"
edition = "2021"
publish = false

[dependencies]
bytes = "=1.12.1"
crc32c = "=0.6.9"
fs4 = "=1.1.0"
libc = "=0.2.191"
noq = "=1.4.0"
noq-proto = "=1.4.0"
ring = "=0.17.14"
rustix = { version = "=1.1.6", features = ["fs", "process"] }
serde = { version = "=1.0.229", features = ["derive"] }
socket2 = { version = "=0.6.5", features = ["all"] }
subtle = "=2.6.1"
thiserror = "=2.0.21"
tokio = { version = "=1.54.1", features = ["io-util", "net", "rt", "sync", "time"] }
toml = "=1.1.8"
