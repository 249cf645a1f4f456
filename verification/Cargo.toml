[package]
name = "mempool_watch"
version = "0.1.0"
edition = "2021"
publish = false

[dependencies]
anyhow = "*"
chrono = { version = "*", default-features = false, features = ["clock"] }
dashmap = "*"
dotenv = "*"
ethers = { version = "*", default-features = false, features = ["ws"] }
fern = { version = "*", features = ["colored"] }
log = "*"
tokio = { version = "*", features = ["sync", "macros", "rt-multi-thread"] }
tokio-stream = "*"
