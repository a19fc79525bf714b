[package]
name = "iox_core"
version = "0.1.0"
edition = "2021"
publish = false

[dependencies]
chrono = { version = "=0.4.45", default-features = false, features = ["std", "clock"] }
murmur3 = "=0.5.2"
percent-encoding = "=2.3.2"
unicode-segmentation = "=1.13.3"
parking_lot = "=0.12.5"
uuid = { version = "=1.29.0", features = ["v4"] }
serde = { version = "=1.0.229", features = ["derive"] }
serde_json = "=1.0.154"
thiserror = "=1.0.69"
once_cell = "=1.21.4"
url = "=2.5.8"
clap = { version = "=4.6.7", features = ["derive", "env"] }
humantime = "=2.4.0"
snafu = "=0.8.9"
itertools = "=0.12.1"
tracing = "=0.1.44"
datafusion = { version = "*", default-features = false }
