[package]
name = "neuron_core"
version = "0.1.0"
edition = "2021"
publish = false

[dependencies]
axum = "0.7"
clap = { version = "4", features = ["derive"] }
dotenv = "0.15"
opentelemetry = "0.27"
schnorrkel = "0.11"
sha2 = "0.10"
tokio = { version = "1", features = ["full"] }
tracing = "0.1"
