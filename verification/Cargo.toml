[package]
name = "gateway_proxy"
version = "0.1.0"
edition = "2021"
publish = false

[dependencies]
base64 = "=0.21.7"
flate2 = "=1.1.10"
futures-util = { version = "=0.3.34", features = ["sink"] }
halfbrown = { version = "=0.2.5", features = ["serde"] }
hyper = { version = "=0.14.32", features = ["server", "http1", "tcp", "runtime"] }
inotify = "=0.10.2"
itoa = "=1.0.18"
libc = "=0.2.191"
libz-sys = "=1.1.31"
log = "=0.4.35"
metrics = "=0.21.1"
metrics-exporter-prometheus = "=0.12.2"
mimalloc = "=0.1.52"
rand = "=0.8.8"
ring = "=0.17.14"
serde = { version = "=1.0.229", features = ["derive"] }
serde_json = "=1.0.154"
tokio = { version = "=1.54.1", features = ["full"] }
tokio-websockets = { version = "=0.4.1", features = ["server", "ring"] }
tracing = "=0.1.44"
tracing-subscriber = "=0.3.23"
twilight-cache-inmemory = "=0.16.0"
twilight-gateway = "=0.16.0"
twilight-gateway-queue = "=0.16.0"
twilight-http = "=0.16.0"
twilight-model = "=0.16.0"
