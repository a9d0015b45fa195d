[package]
name = "ronin_collector"
version = "0.1.0"
edition = "2021"
publish = false

[dependencies]
serde_json = "*"
reqwest = { version = "*", default-features = false }
reqwest-middleware = "*"
reqwest-retry = "*"
tokio = { version = "*", features = ["macros", "rt-multi-thread"] }
dialoguer = "*"
indicatif = "*"
