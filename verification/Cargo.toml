[package]
name = "tick_pipeline"
version = "0.1.0"
edition = "2021"
publish = false

[dependencies]
anyhow = "*"
chrono = "*"
futures-util = "*"
metrics = "*"
metrics-exporter-prometheus = "*"
rdkafka = "*"
tokio = { version = "*", features = ["full"] }
tokio-tungstenite = "*"
tracing = "*"
tracing-subscriber = { version = "*", features = ["env-filter", "json", "time"] }
uuid = { version = "*", features = ["v4"] }
