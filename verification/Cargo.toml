[package]
name = "botcore"
version = "0.1.0"
edition = "2021"
publish = false

[dependencies]
rand = "0.8"
serde = { version = "1", features = ["derive"] }
serde_json = "1"
thiserror = "1"
eyre = "0.6"
tokio = { version = "1", features = ["macros", "rt-multi-thread", "sync"] }
serenity = "0.12"
poise = "0.6"
reqwest = { version = "0.12", default-features = false, features = ["rustls-tls"] }
image = "0.25"
imageproc = "0.25"
ab_glyph = "0.2"
