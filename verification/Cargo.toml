[package]
name = "mqtt_core"
version = "0.1.0"
edition = "2021"
publish = false

[dependencies]
bytes = "1"
tokio = { version = "1", features = ["sync", "net", "io-util", "rt-multi-thread", "macros", "time"] }
futures = "0.3"
log = "0.4"
serde = { version = "1", features = ["derive"] }
toml = "0.8"
rustls = "0.23"
tokio-rustls = "0.26"
colored = "2"
time = { version = "0.3", features = ["formatting", "macros"] }
