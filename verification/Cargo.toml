[package]
name = "session_relay"
version = "0.1.0"
edition = "2021"
publish = false

[dependencies]
rs-snowflake = "*"
http = "*"
bytes = "*"
log = "*"
lazy_static = "*"
thiserror = "*"
simple_logger = "*"
tokio = { version = "*", features = ["full"] }
tokio-stream = "*"
tonic = "*"
rapid-utils = "*"
