[package]
name = "index_walker"
version = "0.1.0"
edition = "2021"
publish = false

[dependencies]
anyhow = "1"
clap = { version = "4", features = ["derive"] }
futures = "0.3"
globset = "0.4"
itertools = "*"
regex = "1"
reqwest = "*"
serde = { version = "1", features = ["derive"] }
serde_json = "1"
tl = "0.7"
tokio = { version = "1", features = ["macros", "rt-multi-thread"] }
tracing = "0.1"
tracing-subscriber = { version = "0.3", features = ["env-filter"] }
urlencoding = "2"
