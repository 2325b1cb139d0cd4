[package]
name = "wallpaper_changer"
version = "0.1.0"
edition = "2021"
publish = false

[dependencies]
chrono = "0.4"
rand = "0.8"
serde = { version = "1", features = ["derive"] }
serde_json = "1"
tokio = { version = "1", features = ["rt-multi-thread", "macros", "sync", "time"] }
wallpaper = "*"
