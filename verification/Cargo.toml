[package]
name = "agent"
version = "0.1.0"
edition = "2021"
publish = false

[dependencies]
anyhow = "1"
dotenvy = "0.15"
tokio = { version = "1", features = ["net", "io-util", "time", "rt-multi-thread", "macros", "process"] }

[dev-dependencies]
serde_json = "1"
