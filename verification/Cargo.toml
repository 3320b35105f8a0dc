[package]
name = "datafusion_distributed"
version = "0.1.0"
edition = "2021"
publish = false

[dependencies]
async-trait = "0.1"
bytes = "=1.12.1"
dashmap = "=6.2.1"
datafusion = { version = "*", default-features = false }
datafusion-proto = { version = "*", default-features = false }
futures = "=0.3.34"
http = "=1.5.0"
itertools = "=0.14.0"
num-traits = "=0.2.19"
prost = "=0.14.4"
rand = "=0.9.5"
tokio = { version = "=1.54.1", features = ["rt", "sync", "macros"] }
tokio-stream = "=0.1.19"
tokio-util = "=0.7.20"
url = "=2.5.8"
uuid = { version = "=1.29.0", features = ["v4"] }
