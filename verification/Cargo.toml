[package]
name = "battleware_core"
version = "0.1.0"
edition = "2021"
publish = false

[dependencies]
battleware-types = "=0.0.1"
commonware-codec = "=0.0.62"
commonware-cryptography = "=0.0.62"
commonware-runtime = "=0.0.62"
futures-util = "=0.3.34"
prometheus-client = "=0.22.3"
tokio = { version = "=1.54.1", features = ["rt", "sync"] }
tokio-tungstenite = "0.24.0"
tracing = "=0.1.44"
