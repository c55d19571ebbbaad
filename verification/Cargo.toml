[package]
name = "deploy_rs"
version = "0.1.0"
edition = "2021"
publish = false

[dependencies]
merge = "0.1.0"
clap = { version = "4", features = ["derive"] }
tokio = { version = "1", features = ["process", "macros", "rt-multi-thread"] }
serde = { version = "1", features = ["derive"] }
serde_derive = "1"
serde_json = "1"
log = "0.4"
pretty_env_logger = "0.4"
