[package]
name = "alfred_tailwindcss_docs"
version = "0.1.0"
edition = "2021"
publish = false

[dependencies]
alfred_workflow_rs = "*"
anyhow = "=1.0.104"
dotenvy = "=0.15.7"
htmlize = { version = "=1.1.0", features = ["unescape"] }
serde = { version = "=1.0.229", features = ["derive"] }
serde_json = "=1.0.154"
ureq = { version = "=3.5.1", features = ["platform-verifier"] }
url = "=2.5.8"
