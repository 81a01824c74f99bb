[package]
name = "cmakefmt"
version = "0.1.0"
edition = "2021"
publish = false

[dependencies]
memchr = "*"
serde = { version = "*", features = ["derive"] }
serde_json = "*"
toml = "*"
glob = "*"
anyhow = "*"
clap = { version = "*", features = ["derive"] }
tracing = "*"
tracing-subscriber = { version = "*", features = ["env-filter"] }
tracing-chrome = "*"
dprint-core = "*"
