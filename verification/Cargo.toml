[package]
name = "archlink"
version = "0.1.0"
edition = "2021"
publish = false

[dependencies]
strsim = "*"
clap = "*"
colored = "*"
reqwest = { version = "*", default-features = false, features = ["json"] }
serde = { version = "*", features = ["derive"] }
serde_json = "*"
tokio = { version = "*", features = ["macros", "rt-multi-thread"] }
toml = "*"
urlencoding = "*"
