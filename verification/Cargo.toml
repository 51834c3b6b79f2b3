[package]
name = "liveship"
version = "0.1.0"
edition = "2021"
publish = false

[dependencies]
anyhow = "1"
async-trait = "0.1"
base64 = "0.22"
chrono = "0.4"
dashmap = "6"
dirs = "5"
log = "0.4"
md5 = "0.7"
once_cell = "1"
redb = "2"
regex = "1"
reqwest = "0.12"
serde = { version = "1", features = ["derive"] }
serde_json = "1"
tokio = { version = "1", features = ["rt-multi-thread", "macros", "time"] }
urlencoding = "2"
