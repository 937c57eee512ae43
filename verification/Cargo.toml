[package]
name = "cnblogs-lib"
version = "0.1.0"
edition = "2021"
publish = false

[dependencies]
anyhow = "1"
chrono = "0.4"
clap = { version = "4", features = ["derive"] }
home = "0.5"
html2md = "*"
owo-colors = "4"
regex = "1"
reqwest = { version = "0.12", default-features = false, features = ["json", "rustls-tls"] }
rmcp = { version = "*", features = ["server", "transport-io", "macros"] }
schemars = "1"
serde = { version = "1", features = ["derive"] }
serde_json = "1"
termimad = "*"
tokio = { version = "1", features = ["rt-multi-thread", "macros", "sync"] }
