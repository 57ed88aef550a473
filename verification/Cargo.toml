[package]
name = "engine"
version = "0.1.0"
edition = "2021"
publish = false

[dependencies]
serde = { version = "1", features = ["derive"] }
thiserror = "1"
toml = "0.5"
tracing = "0.1"
tracing-subscriber = "0.3"
winit = "0.28"
