[package]
name = "kitkat"
version = "0.1.0"
edition = "2021"
publish = false

[dependencies]
wana_kana = "4"
regex = "1"
serenity = "0.12"
poise = "0.6"
reqwest = { version = "0.11", default-features = false, features = ["rustls-tls"] }
tokio = { version = "1", features = ["macros", "rt-multi-thread", "time"] }
dotenvy = "0.15"
openai-api-rs = "4"
rusqlite = "0.32"
serde_json = "1"
strum_macros = "0.26"
anyhow = "1"
once_cell = "1"
