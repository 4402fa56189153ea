[package]
name = "aks_wi_env_check"
version = "0.1.0"
edition = "2021"
publish = false

[dependencies]
azure_core = "*"
azure_identity = "*"
reqwest = { version = "*", default-features = false }
tokio = { version = "*", features = ["macros", "rt-multi-thread"] }
