[package]
name = "quraan_discord"
version = "0.1.0"
edition = "2021"
publish = false

[dependencies]
dotenvy = "0.15"
poise = "0.5"
tokio = { version = "1", features = ["macros", "rt-multi-thread", "fs"] }
xml-rs = "0.8"
