[package]
name = "palabot"
version = "0.1.0"
edition = "2021"
publish = false

[dependencies]
chrono = "=0.4.45"
teloxide = { version = "=0.12.2", features = ["macros"] }
dptree = "=0.3.0"
tokio = { version = "=1.54.1", features = ["full"] }
serpapi = "=1.2.1"
serde = { version = "1", features = ["derive"] }
serde_json = "=1.0.154"
log = "=0.4.35"
anyhow = "=1.0.104"
hound = "=3.5.1"
tempfile = "=3.27.0"
whisper-rs = "=0.16.0"
takecell = "=0.1.1"
