[package]
name = "httpbis"
version = "0.1.0"
edition = "2021"
publish = false

[dependencies]
bytes = "0.4"
futures = "0.1"
tokio-io = "0.1"
tokio-core = "0.1"
log = "0.3"
env_logger = "0.4"
native-tls = "0.2"
hpack = "0.3"
