[package]
name = "halter_providers"
version = "0.1.0"
edition = "2021"
publish = false

[dependencies]
anyhow = "=1.0.104"
async-openai = { version = "=0.33.1", default-features = false, features = ["response-types"] }
async-trait = "=0.1.92"
base64 = "=0.22.1"
chrono = { version = "=0.4.45", default-features = false, features = ["clock", "std"] }
eventsource-stream = "=0.2.3"
futures = "=0.3.34"
hex = "=0.4.3"
reqwest = { version = "=0.12.28", default-features = false, features = ["json", "stream"] }
serde_json = "=1.0.154"
sha2 = "=0.10.9"
thiserror = "=2.0.21"
tokio = { version = "=1.54.1", features = ["macros", "net", "rt", "sync", "time"] }
tokio-stream = "=0.1.19"
tokio-util = "=0.7.20"
tracing = "=0.1.44"
