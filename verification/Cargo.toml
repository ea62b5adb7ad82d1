[package]
name = "newsbot"
version = "0.1.0"
edition = "2021"
publish = false

[dependencies]
anyhow = "*"
async-trait = "*"
base64 = "*"
chrono = "*"
clap = { version = "*", features = ["derive"] }
clokwerk = "*"
env_logger = "*"
log = "*"
md5 = "*"
reqwest = { version = "*", default-features = false, features = ["json", "multipart"] }
scraper = "*"
serde = { version = "*", features = ["derive"] }
serde_json = "*"
signal-hook = "*"
tokio = { version = "*", features = ["macros", "rt-multi-thread", "signal", "time"] }
