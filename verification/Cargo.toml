[package]
name = "atomic-arbitrage"
version = "0.1.0"
edition = "2021"
publish = false

[dependencies]
starknet = "=0.11.0"
starknet-core = "=0.11.1"
starknet-types-core = "=0.1.6"
color-eyre = "0.6"
dotenvy = "0.15"
futures = "0.3"
reqwest = { version = "0.11", default-features = false, features = ["json", "rustls-tls"] }
reqwest-middleware = "0.2"
serde = { version = "1", features = ["derive"] }
tokio = { version = "1", features = ["macros", "rt", "time"] }
tracing = "0.1"
tracing-subscriber = { version = "0.3", features = ["env-filter"] }
