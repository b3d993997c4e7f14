[package]
name = "influx_bridge"
version = "0.1.0"
edition = "2021"
publish = false

[dependencies]
bytes = "*"
chrono = "*"
confy = "0.4"
log = "*"
log4rs = "*"
reqwest = { version = "0.12", default-features = false }
rumqttd = "0.9"
serde_json = "*"
tokio = { version = "*", features = ["full"] }
