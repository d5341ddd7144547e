[package]
name = "hyprkool"
version = "0.1.0"
edition = "2021"
publish = false

[dependencies]
anyhow = "*"
clap = { version = "*", features = ["derive"] }
dirs = "*"
hyprland = "*"
linicon = "*"
serde = { version = "*", features = ["derive"] }
serde_json = "*"
tokio = { version = "*", features = ["macros", "rt", "net", "io-util", "sync", "time"] }
toml = "*"
