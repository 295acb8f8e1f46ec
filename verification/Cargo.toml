[package]
name = "tgt_core"
version = "0.1.0"
edition = "2021"
publish = false

[dependencies]
async-trait = "*"
hmac = "*"
nucleo = "0.5"
serde = { version = "1", features = ["derive"] }
serde_json = "1"
sha2 = "*"
thiserror = "*"
tokio = { version = "1", default-features = false, features = ["sync"] }
tracing = { version = "*", default-features = false, features = ["std", "attributes"] }
