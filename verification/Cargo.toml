[package]
name = "fractal_bot"
version = "0.1.0"
edition = "2021"
publish = false

[dependencies]
serenity = { version = "=0.12.5", default-features = false, features = ["client", "gateway", "rustls_backend", "model"] }
reqwest = { version = "=0.12.28", default-features = false, features = ["rustls-tls"] }
tokio = { version = "=1.53.2", default-features = false, features = ["macros", "rt-multi-thread"] }
serde = { version = "=1.0.229", features = ["derive"] }
serde_json = "=1.0.151"
toml = "=0.8.23"
