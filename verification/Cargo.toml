[package]
name = "rupnp"
version = "0.1.0"
edition = "2021"
publish = false

[dependencies]
roxmltree = "*"
ssdp-client = "*"
http = "*"
hyper = { version = "*", features = ["client", "http1"] }
hyper-util = { version = "*", features = ["client-legacy", "http1", "tokio"] }
http-body-util = "*"
bytes = "*"
tokio = { version = "*", features = ["net", "io-util", "rt"] }
if-addrs = "*"
futures-core = "*"
futures-util = "*"
