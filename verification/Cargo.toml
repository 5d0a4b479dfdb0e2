[package]
name = "rumester"
version = "0.1.0"
edition = "2021"
publish = false

[dependencies]
bytes = "1"
clap = { version = "4", features = ["cargo"] }
ctrlc = "3"
dirs = "*"
hotwatch = "*"
reqwest = { version = "0.12", default-features = false, features = ["json", "rustls-tls"] }
serde = { version = "1", features = ["derive"] }
tokio = { version = "1", features = ["full"] }
whoami = "*"
zip = { version = "9", default-features = false, features = ["deflate"] }
