[package]
name = "codex_chat_compat"
version = "0.1.0"
edition = "2021"
publish = false

[dependencies]
http = "1"
httpdate = "1"
rand = "0.9"
serde = { version = "1", features = ["derive"] }
serde_json = "1"
tokio = { version = "1", features = ["time", "rt", "macros"] }
reqwest = { version = "0.12", default-features = false, features = ["blocking"] }
tiny_http = "0.12"
anyhow = "1"
clap = { version = "4", features = ["derive"] }
thiserror = "2"
owo-colors = "4"

[dev-dependencies]
pretty_assertions = "1"
