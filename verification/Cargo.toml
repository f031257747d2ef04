[package]
name = "word4you"
version = "1.2.0"
edition = "2021"
publish = false

[dependencies]
anyhow = "1"
async-trait = "0.1"
chrono = "0.4"
clap = { version = "4", features = ["derive"] }
console = "0.15"
dialoguer = "0.11"
dotenvy = "0.15"
git2 = { version = "*", default-features = false }
reqwest = { version = "0.12", features = ["json"] }
serde = { version = "1", features = ["derive"] }
termimad = "*"
tokio = { version = "1", features = ["macros", "rt-multi-thread"] }
toml = "0.8"
tracing-subscriber = "0.3"
