[package]
name = "boardgamegeek"
version = "0.1.0"
edition = "2021"
publish = false

[dependencies]
atoi = "=3.1.1"
backoff = { version = "=0.4.0", features = ["tokio"] }
itertools = "=0.15.0"
log = "=0.4.34"
regex = "=1.13.1"
reqwest = "=0.13.5"
thiserror = "=2.0.21"
tokio = { version = "=1.54.1", features = ["time"] }
xml-rs = "=1.0.0"
