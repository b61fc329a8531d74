[package]
name = "async_exercises"
version = "0.1.0"
edition = "2021"
publish = false

[dependencies]
quick-xml = "=0.30.0"
zip = { version = "=0.6.6", default-features = false, features = ["deflate"] }
anyhow = "=1.0.104"
dirs = "=5.0.1"
reqwest = { version = "=0.12.28", default-features = false, features = ["blocking", "rustls-tls"] }
tokio = { version = "=1.54.1", features = ["macros", "rt-multi-thread"] }
winreg = "=0.52.0"
