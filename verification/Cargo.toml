[package]
name = "neuron_collector"
version = "0.1.0"
edition = "2021"
publish = false

[dependencies]
url = "2"
toml = "0.8"
anyhow = "1"
chrono = "0.4"
console = "0.15"
dialoguer = "0.11"
libc = "0.2"
reqwest = { version = "0.12", default-features = false, features = ["json", "blocking"] }
rumqttc = { version = "0.24", default-features = false }
serde = { version = "1", features = ["derive"] }
serde_json = "1"
sysinfo = "0.32"
tokio = { version = "1", features = ["full"] }
tokio-modbus = { version = "0.14", default-features = false, features = ["rtu", "tcp"] }
tokio-serial = { version = "5", default-features = false }
tokio-util = "0.7"
tracing = "0.1"
tracing-subscriber = "0.3"
