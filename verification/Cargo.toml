[package]
name = "fts_bench"
version = "0.1.0"
edition = "2021"
publish = false

[dependencies]
regex = "1"
serde_json = "1"
chrono = "0.4"
env_logger = "*"
futures = "0.3"
once_cell = "1"
tokio = { version = "1", features = ["macros", "rt", "rt-multi-thread", "io-std", "io-util"] }
arrow-array = "*"
arrow-schema = "*"
tantivy = "0.22"
