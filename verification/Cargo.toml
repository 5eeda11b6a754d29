[package]
name = "rustnmap"
version = "0.1.0"
edition = "2021"
publish = false

[dependencies]
bytes = "=1.12.1"
chrono = { version = "=0.4.45", default-features = false, features = ["clock", "std", "serde"] }
dashmap = "=6.2.1"
libc = "0.2"
tokio = { version = "1", features = ["net", "rt", "rt-multi-thread", "sync", "time", "macros"] }
async-trait = "0.1"
futures = "0.3"
futures-util = "0.3"
tracing = "0.1"
tracing-subscriber = { version = "0.3", features = ["env-filter"] }
anyhow = "1"
serde = { version = "1", features = ["derive"] }
