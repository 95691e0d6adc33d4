[package]
name = "ferrumc"
version = "0.1.0"
edition = "2021"
publish = false

[dependencies]
lzzzz = "1"
thiserror = "1"
tokio = { version = "1", features = ["rt-multi-thread", "sync", "time", "io-util"] }
tracing = "0.1"

[dev-dependencies]
futures = "0.3"
rayon = "1"
