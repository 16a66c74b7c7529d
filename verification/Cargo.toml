[package]
name = "octoweb"
version = "0.12.0"
edition = "2021"
publish = false

[dependencies]
serde_json = "=1.0.154"
serde = { version = "=1.0.229", features = ["derive"] }
schemars = "=1.2.3"
rmcp = { version = "=3.8.0", features = ["server", "macros", "transport-streamable-http-server"] }
axum = "=0.8.9"
tokio = { version = "=1.54.1", features = ["full"] }
tracing = "=0.1.44"
tracing-subscriber = "=0.3.23"
base64 = "=0.22.1"
objc2 = "=0.6.5"
objc2-foundation = "=0.3.2"
objc2-core-foundation = "=0.3.2"
objc2-app-kit = "=0.3.2"
block2 = "=0.6.2"
core-foundation = "=0.10.1"
core-graphics = "=0.25.0"
foreign-types = "=0.5.0"
wry = "=0.57.1"
tao = "=0.37.2"
