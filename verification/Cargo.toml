[package]
name = "rmail"
version = "0.1.0"
edition = "2021"
publish = false

[dependencies]
anyhow = "*"
async-imap = "*"
async-native-tls = "*"
futures = "*"
log = "*"
mail-parser = "*"
serde = { version = "*", features = ["derive"] }
tokio = { version = "*", features = ["net", "rt-multi-thread", "macros"] }
tokio-util = { version = "*", features = ["compat"] }
toml = "*"
