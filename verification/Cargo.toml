[package]
name = "livesplit_core"
version = "0.1.0"
edition = "2021"
publish = false

[dependencies]
heck = "0.3"
base64 = "*"
image = { version = "*", default-features = false }
indexmap = "*"
ordered-float = "*"

[dev-dependencies]
serde_json = "1"
