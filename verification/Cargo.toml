[package]
name = "d2c"
version = "0.1.0"
edition = "2021"
publish = false

[dependencies]
cloudflare = "=0.11.0"
public-ip = "=0.2.2"
serde = { version = "=1.0.229", features = ["derive"] }
serde_derive = "=1.0.229"
tokio = { version = "=1.54.1", features = ["macros", "rt-multi-thread", "fs"] }
toml = "=0.8.23"
tracing = "=0.1.44"
tracing-subscriber = "=0.3.23"
