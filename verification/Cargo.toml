[package]
name = "zniff-rs"
version = "0.1.0"
edition = "2021"
publish = false

[dependencies]
crc16 = "=0.4.0"
hex = "=0.4.3"
clap = { version = "=4.6.7", features = ["derive"] }
serde = { version = "=1.0.229", features = ["derive"] }
quick-xml = { version = "=0.42.0", features = ["serialize"] }
tokio = { version = "=1.54.1", features = ["rt-multi-thread", "macros", "net", "io-util", "sync", "time"] }
serialport = { version = "=4.10.1", default-features = false }
rusqlite = { version = "=0.41.0", features = ["bundled"] }
thiserror = "=1.0.69"
ratatui = "0.29"
