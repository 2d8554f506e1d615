[package]
name = "chat_ledger"
version = "0.1.0"
edition = "2021"
publish = false

[dependencies]
base64 = "0.22"
seahash = "4.1"
serde_json = "1.0"
thiserror = "1.0"
