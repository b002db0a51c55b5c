[package]
name = "opereon"
version = "0.1.0"
edition = "2021"
publish = false

[dependencies]
kg-tree = "=0.2.1"
kg-diag = "=0.4.0"
kg-symbol = "=0.2.0"
kg-utils = "=0.4.0"
rand = "=0.8.8"
regex = "=1.13.1"
globset = "=0.4.21"
url = "=2.5.8"
users = "=0.11.0"
uuid = { version = "=1.29.0", features = ["v4"] }
chrono = "=0.4.45"
rust-crypto = "=0.2.36"
serde = { version = "=1.0.229", features = ["derive"] }
serde_json = "=1.0.154"
toml = "=0.5.11"
parking_lot = "=0.12.5"
os_pipe = "=1.2.3"
shared_child = "=1.1.2"
libc = "=0.2.191"
tokio = { version = "=1.54.1", features = ["rt", "rt-multi-thread", "sync", "time", "macros"] }
tracing = "=0.1.44"
tracing-subscriber = "=0.3.23"
git2 = "=0.18.3"
walkdir = "=2.5.0"
hostname = "=0.3.1"

[dev-dependencies]
yaml-rust = "=0.4.5"
