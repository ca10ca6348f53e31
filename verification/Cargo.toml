[package]
name = "mastodon_twitter_sync"
version = "0.1.0"
edition = "2021"
publish = false

[dependencies]
html-escape = "=0.2.15"
voca_rs = "=1.15.2"
egg-mode-text = "=1.14.7"
unicode-segmentation = "=1.13.3"
serde = { version = "=1.0.229", features = ["derive"] }
serde_json = "=1.0.151"
toml = "=1.1.7"
clap = { version = "=4.6.7", features = ["derive"] }
anyhow = "=1.0.104"
