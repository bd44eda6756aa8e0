[package]
name = "governance"
version = "0.1.0"
edition = "2021"
publish = false

[dependencies]
anyhow = "1"
askama = "*"
colored = "*"
dotenv = "*"
env_logger = "*"
futures = "0.3"
git-conventional = "*"
glob = "*"
log = "0.4"
reqwest = { version = "0.12", features = ["json"] }
serde = { version = "1", features = ["derive"] }
serde_json = "1"
tokio = { version = "1", features = ["macros", "rt-multi-thread"] }
toml = "*"
