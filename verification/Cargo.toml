[package]
name = "rustquit"
version = "0.1.0"
edition = "2021"
publish = false

[dependencies]
libc = "0.2"
serde = { version = "1", features = ["derive"] }
toml = "0.8"
dirs = "6"
tracing = "0.1"
tracing-appender = "0.2"
tracing-subscriber = "0.3"
block2 = "0.6"
objc2 = "0.6"
objc2-foundation = "0.3"
objc2-core-foundation = "0.3"
objc2-core-graphics = "0.3"
objc2-application-services = "0.3"
objc2-app-kit = "0.3"
objc2-service-management = "0.3"
