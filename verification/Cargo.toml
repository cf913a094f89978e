[package]
name = "jsaas"
version = "0.1.0"
edition = "2021"
publish = false

[dependencies]
bytes = "0.4"
futures = "0.1"
hyper = "0.12"
native-tls = "0.2"
num_cpus = "1"
openssl = "0.10"
serde_json = "1"
tokio = "0.1"
tokio-signal = "0.2"
tokio-threadpool = "0.1"
tokio-tls = "0.2"
uuid = { version = "1", features = ["v4"] }
