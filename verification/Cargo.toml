[package]
name = "genai_bridge"
version = "0.1.0"
edition = "2021"
publish = false

[dependencies]
futures = "=0.3.34"
genai = "=0.6.5"
http = "=1.5.0"
serde = "=1.0.229"
serde_json = "=1.0.154"
tokio = { version = "=1.54.1", features = ["sync", "time", "rt", "macros"] }
tracing = "=0.1.44"
