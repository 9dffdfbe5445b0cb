[package]
name = "lulu-serial-port"
version = "0.1.0"
edition = "2021"
publish = false

[dependencies]
serialport = { version = "*", default-features = false }
tokio = { version = "1", features = ["full"] }
tokio-serial = { version = "*", default-features = false }
rumqttc = { version = "*", default-features = false }
thiserror = "*"
tracing = "*"
