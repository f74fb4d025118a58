[package]
name = "spotbot"
version = "0.1.0"
edition = "2021"
publish = false

[dependencies]
xml-rs = "*"
chrono = { version = "*", features = ["unstable-locales"] }
chrono-tz = "*"
serde = { version = "*", features = ["derive"] }
serde_json = "*"
reqwest = { version = "*", default-features = false }
tokio = { version = "*", features = ["macros", "rt-multi-thread"] }
dotenv = "*"
plotters = "*"
bsky-sdk = "*"
