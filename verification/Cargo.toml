[package]
name = "revent"
version = "0.1.0"
edition = "2021"
publish = false

[dependencies]
uuid = { version = "1", features = ["v4"] }
serde = { version = "1", features = ["derive"] }
serde_json = "1"
chrono = { version = "0.4", features = ["serde"] }
tokio = { version = "1", features = ["full"] }
tokio-stream = "0.1"
futures-core = "0.3"
axum = "0.8"
tonic = "*"
prost-types = "*"
async-trait = "0.1"
tracing = "0.1"
tracing-subscriber = { version = "0.3", features = ["env-filter"] }
tracing-opentelemetry = "*"
opentelemetry = "*"
opentelemetry_sdk = "*"
opentelemetry-otlp = { version = "*", features = ["grpc-tonic"] }
opentelemetry-stdout = "*"
opentelemetry-appender-tracing = "*"
hostname = "*"
envy = "0.4"
dotenvy = "0.15"
humantime-serde = "1"
sqlx = { version = "0.8", features = ["sqlite", "runtime-tokio", "chrono", "migrate"] }
mime_guess = "2"
rust-embed = "8"
rustc_tools_util = "*"
