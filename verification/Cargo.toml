[package]
name = "treasury_agent"
version = "0.1.0"
edition = "2021"
publish = false

[dependencies]
serde_json = "=1.0.151"
anyhow = "1"
log = "0.4"
env_logger = "*"
dotenv = "*"
tokio = { version = "1", features = ["macros", "rt-multi-thread", "time"] }
reqwest = { version = "*", default-features = false }
ethers = { version = "=0.1.3", default-features = false, features = ["providers", "core"] }
