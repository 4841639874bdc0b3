[package]
name = "yang_push"
version = "0.1.0"
edition = "2021"
publish = false

[dependencies]
async-channel = "=2.5.0"
either = "=1.19.0"
opentelemetry = "=0.33.1"
rand = "=0.10.3"
russh = "=0.65.0"
rustc-hash = "=2.1.3"
tokio = { version = "=1.54.1", features = ["full"] }
tracing = "=0.1.44"
yang5 = "=0.4.0"
