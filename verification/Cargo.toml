[package]
name = "mt2_draft_assistant"
version = "0.1.0"
edition = "2021"
publish = false

[dependencies]
fuzzy-matcher = "=0.3.7"
image = { version = "=0.25.10", default-features = false, features = ["png"] }
leptess = "*"
log = "0.4"
screenshots = "*"
serde = { version = "1", features = ["derive"] }
