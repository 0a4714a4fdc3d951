[package]
name = "mkcmt"
version = "0.1.0"
edition = "2021"
publish = false

[dependencies]
arboard = "*"
clap = { version = "*", features = ["derive"] }
genai = "*"
tokio = { version = "*", features = ["rt-multi-thread"] }
