[package]
name = "cfc_relay"
version = "0.1.0"
edition = "2021"
publish = false

[dependencies]
poise = "0.6"
serenity = "0.12"
tokio = { version = "1", features = ["macros", "rt-multi-thread"] }
serde = { version = "1", features = ["derive"] }
toml = "0.8"
snafu = "0.8"
ordinal = "*"
