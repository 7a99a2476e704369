[package]
name = "eclect"
version = "0.1.0"
edition = "2021"
publish = false

[dependencies]
base64 = "*"
md5 = "*"
serde_json = "*"
serde = { version = "*", features = ["derive"] }
clap = { version = "*", features = ["derive"] }
toml = "*"
directories = "*"
resolve-path = "*"
http = "*"
reqwest = { version = "*", default-features = false, features = ["blocking", "json"] }
discord-rich-presence = "*"
