[package]
name = "h1_dispatcher"
version = "0.1.0"
edition = "2021"
publish = false

[dependencies]
bytes = "=1.12.1"
httparse = "=1.10.1"
itoa = "=1.0.18"
mime = "=0.3.17"
futures-core = "=0.3.34"
pin-project-lite = "=0.2.17"
tokio = { version = "=1.54.1", features = ["io-util", "net", "rt", "time", "macros"] }
tracing = { version = "=0.1.44", default-features = false }
log = "=0.4.34"
h2 = "=0.4.20"
http-encoding = { version = "=0.3.0", default-features = false }
xitca-service = "=0.3.0"
xitca-unsafe-collection = "=0.2.0"
xitca-io = "=0.5.1"
xitca-server = "=0.6.1"
