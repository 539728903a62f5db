[package]
name = "perf_gauge"
version = "0.1.0"
edition = "2021"
publish = false

[dependencies]
leaky-bucket = "1"
hyper = { version = "0.14", features = ["full"] }
tokio = { version = "1", features = ["full"] }
rand = "0.8"
base64 = "0.13"
clap = { version = "3", features = ["derive"] }
humantime = "2"
log = "0.4"
log4rs = "1"
serde = { version = "1", features = ["derive"] }
serde_json = "1"
prometheus = { version = "0.13", features = ["push"] }
bytesize = "1"
futures-util = "0.3"
hyper-tls = "0.5"
native-tls = "0.2"
tokio-native-tls = "0.3"
async-trait = "0.1"
