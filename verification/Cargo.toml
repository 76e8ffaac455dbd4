[package]
name = "terminal_chess"
version = "0.1.0"
edition = "2021"
publish = false

[dependencies]
bytes = "1"
clap = { version = "4", default-features = false, features = ["std", "help"] }
serde = { version = "1", features = ["derive"] }
serde_json = "1"
termion = "*"
tokio = { version = "1", default-features = false, features = ["net", "io-util", "rt"] }
